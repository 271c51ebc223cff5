//! The two input modes of the editor.

use vstd::prelude::*;

verus! {

/// How typed characters are read.
#[derive(Clone, Copy, Debug, PartialEq, Eq, Structural)]
pub enum EditorMode {
    /// Keys are commands: navigation, and `i` to start inserting.
    Normal,
    /// Typed hex digits overwrite the content.
    Insert,
}

impl EditorMode {
    /// Whether this is the normal (command) mode.
    pub fn is_normal(&self) -> (r: bool)
        ensures
            r == (*self == EditorMode::Normal),
    {
        match self {
            EditorMode::Normal => true,
            _ => false,
        }
    }

    /// Whether this is the insert mode.
    pub fn is_insert(&self) -> (r: bool)
        ensures
            r == (*self == EditorMode::Insert),
    {
        match self {
            EditorMode::Insert => true,
            _ => false,
        }
    }

    /// The name shown on the status line.
    pub fn to_string(&self) -> (r: String)
        ensures
            *self == EditorMode::Normal ==> r@ == "NORMAL"@,
            *self == EditorMode::Insert ==> r@ == "INSERT"@,
    {
        match self {
            EditorMode::Normal => "NORMAL".to_owned(),
            EditorMode::Insert => "INSERT".to_owned(),
        }
    }
}

} // verus!
