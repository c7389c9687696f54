//! A store for a small document of people and tasks, kept as one JSON file.
//!
//! The store works on the text of the file: [`store::DbFile`] holds what is
//! on disk, and loading, saving and creating a person are functions from
//! that text to the next. Reading and writing the file itself is left to
//! the caller.

pub mod codec;
pub mod error;
pub mod json;
pub mod people;
pub mod person;
pub mod person_id;
pub mod store;
pub mod text;
