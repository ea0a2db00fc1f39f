//! Verified core of a personal portfolio: bibliography parsing, sorting and
//! presentation rules, the updates timeline layout, and page navigation.

pub mod bibliography;
pub mod bibtex;
pub mod consts;
pub mod entry;
pub mod order;
pub mod page;
pub mod social;
pub mod text;
pub mod thumbnail;
pub mod updates;
pub mod variant;
