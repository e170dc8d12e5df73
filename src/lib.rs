//! Meadows finds the configuration files of a program. It looks in a fixed series of places, from the
//! most specific (paths given by the caller) to the most general (next to the executable), and gives the
//! files that exist there, without giving one file twice.
//!
//! [`config`] plans the candidate paths and chooses the existing files among them, with the help of the
//! collection of unique elements [`collections::Uvec`]. [`process`] derives the names and directories of
//! the running executable from its paths, and [`env`] the environment variables that describe it,
//! published once. [`str`] and [`vec`] hold small utilities.

pub mod collections;
pub mod config;
pub mod env;
pub mod math;
pub mod path;
pub mod prelude;
pub mod process;
pub mod str;
pub mod tracing;
pub mod vec;

use vstd::prelude::*;

verus! {

/// A general formatting hint.
///
/// This may be the assumed minimum column width of a terminal or editor, including line breaks. Lines may be
/// wrapped if they exceed `TEXT_WIDTH` - 1 columns.
pub const TEXT_WIDTH: usize = 110;

/// The view of an optional value.
pub open spec fn opt_view<T: View>(o: Option<T>) -> Option<T::V> {
    match o {
        Some(t) => Some(t@),
        None => None,
    }
}

} // verus!
