use vstd::prelude::*;

pub mod clipboard;
pub mod layout;
pub mod lits;
pub mod process;
pub mod sanitize;
pub mod shell;
pub mod state;
pub mod text;
pub mod tray;
pub mod unicode;

verus! {

} // verus!
