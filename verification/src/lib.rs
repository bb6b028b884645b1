//! Core logic of the DSH desktop shell.
use vstd::prelude::*;

pub mod backend;
pub mod controls;
pub mod downloads;
pub mod environments;
pub mod filenames;
pub mod install;
pub mod json;
pub mod laws;
pub mod paths;
pub mod runtime;
pub mod scripts;
pub mod settings;
pub mod text;
pub mod toast;
pub mod util;

verus! {
}
