//! Errors of the variable environment.
use vstd::prelude::*;

verus! {

/// A failure of the variable environment. Bindings cannot fail at present;
/// the kind is kept so that constraints on bindings can report through it.
#[derive(Debug, PartialEq, Eq)]
pub enum RegistryError {
    EntryExists(String),
}

} // verus!
