//! Conversion of a Common Voice corpus into the LJSpeech layout.
//!
//! The library decides what is copied where, which index each record gets,
//! and what each metadata line says; the caller performs the file system work.
pub mod audio;
pub mod constants;
pub mod converter;
pub mod manifest;
pub mod split;
pub mod text;
