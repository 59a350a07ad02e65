//! A small in-page command shell: a numerology calculator, a letter cipher,
//! a read-only article catalog and the transcript dispatcher that ties them
//! together, with the reader of article sources that fills the catalog.
pub mod text;
pub mod numerology;
pub mod cipher;
pub mod models;
pub mod shell;
pub mod posts;
