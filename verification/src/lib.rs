//! Core of a plain-text buffer editor: a UTF-8 byte buffer, a line index
//! derived from it, a cursor addressed as (line, byte column), an optional
//! selection marker, and the mutation operations (insert, delete, cut, copy,
//! paste, save bookkeeping) that a terminal front end drives one key event at
//! a time.

pub mod clipboard;
pub mod config;
pub mod edit;
pub mod editor;
pub mod laws;
pub mod lines;
pub mod nav;
pub mod unicode;
