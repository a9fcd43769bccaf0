//! Report output for a log-analysis run.
//!
//! * [`timeline`] keeps the messages of a run in the order of their event
//!   times, and [`afterfact`] writes them as CSV.
//! * [`options::htmlreport`] gathers markdown for the sections of a report
//!   and renders it to HTML, and [`options::page`] wraps that HTML in a page
//!   and says in which order the page is put on disk.
//!
//! The library computes text and bytes. It opens no file and prints nothing;
//! that is left to its caller.

pub mod afterfact;
pub mod options;
pub mod timeline;
