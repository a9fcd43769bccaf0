//! The fragments of every section, kept in a `hashbrown` hash map.
//!
//! Verus cannot look into the map, so this module states what the map holds
//! and what each operation used by the report does to it. These statements
//! are taken from the documentation of `hashbrown::HashMap`; they are not
//! proved.

use vstd::prelude::*;

verus! {

/// A `hashbrown::HashMap` from section name to the section's fragments.
#[verifier::external_body]
pub struct SectionMap {
    inner: hashbrown::HashMap<String, Vec<String>>,
}

/// What a `SectionMap` holds: each section name that has an entry, with the
/// entry's fragments in their order.
pub uninterp spec fn section_fragments(sections: SectionMap) -> Map<Seq<char>, Seq<Seq<char>>>;

/// The content of a map without entries.
pub open spec fn no_sections() -> Map<Seq<char>, Seq<Seq<char>>> {
    Map::empty()
}

impl SectionMap {
    /// `hashbrown::HashMap::new`: a map without entries.
    #[verifier::external_body]
    pub(crate) fn new() -> (sections: SectionMap)
        ensures
            section_fragments(sections) == no_sections(),
    {
        SectionMap { inner: hashbrown::HashMap::new() }
    }

    /// `hashbrown::HashMap::insert`: afterwards `name` has the entry
    /// `fragments` and every other entry is as before. Returns the entry that
    /// `name` had, if it had one.
    #[verifier::external_body]
    pub(crate) fn insert(&mut self, name: String, fragments: Vec<String>) -> (replaced: Option<
        Vec<String>,
    >)
        ensures
            section_fragments(*final(self)) == section_fragments(*old(self)).insert(
                name@,
                fragments.deep_view(),
            ),
            match replaced {
                Some(previous) => section_fragments(*old(self)).contains_key(name@)
                    && previous.deep_view() == section_fragments(*old(self))[name@],
                None => !section_fragments(*old(self)).contains_key(name@),
            },
    {
        self.inner.insert(name, fragments)
    }

    /// `hashbrown::HashMap::get`: the entry of `name`, if it has one. The map
    /// is not changed.
    #[verifier::external_body]
    pub(crate) fn get(&self, name: &str) -> (found: Option<&Vec<String>>)
        ensures
            match found {
                Some(fragments) => section_fragments(*self).contains_key(name@)
                    && fragments.deep_view() == section_fragments(*self)[name@],
                None => !section_fragments(*self).contains_key(name@),
            },
    {
        self.inner.get(name)
    }

    /// `hashbrown::HashMap::entry` followed by `Entry::or_insert`: gives
    /// `name` the entry `default` unless it has one, and hands out that entry
    /// for changes. Once the caller is done, the map holds for `name` what the
    /// caller left there; every other entry is as before.
    #[verifier::external_body]
    pub(crate) fn entry_or_insert(&mut self, name: String, default: Vec<String>) -> (entry:
        &mut Vec<String>)
        ensures
            entry.deep_view() == if section_fragments(*old(self)).contains_key(name@) {
                section_fragments(*old(self))[name@]
            } else {
                default.deep_view()
            },
            section_fragments(*final(self)) == section_fragments(*old(self)).insert(
                name@,
                final(entry).deep_view(),
            ),
    {
        self.inner.entry(name).or_insert(default)
    }

    /// `Clone::clone` of `hashbrown::HashMap`: a second map with the same
    /// entries.
    #[verifier::external_body]
    pub(crate) fn duplicate(&self) -> (copy: SectionMap)
        ensures
            section_fragments(copy) == section_fragments(*self),
    {
        SectionMap { inner: self.inner.clone() }
    }
}

} // verus!
