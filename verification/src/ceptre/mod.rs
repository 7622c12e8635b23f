//! Games from Ceptre programs.
//!
//! A Ceptre program, annotated with the logics that its types, predicates and
//! rules belong to, describes a small game of rooms, characters and items. The
//! modules here hold such a program as data and work out which of its parts
//! play which role.

pub mod boxsy_info;
pub mod builtins;
pub mod convert;
pub mod ctypes;
pub mod error;
pub mod json;
pub mod map;
pub mod parse;
pub mod pred;
pub mod rules;
pub mod state;
