//! The controller of a realm being edited.

use vstd::prelude::*;

verus! {

/// The template of realms being edited.
#[derive(Copy, Clone, Debug)]
pub struct Editor;

/// The controller of a realm being edited.
#[derive(Copy, Clone, Debug)]
pub struct EditorController;

impl Editor {
    /// A new controller for a realm being edited.
    pub fn blank(&self) -> (r: EditorController)
        ensures
            r == EditorController,
    {
        EditorController
    }

    /// The name of a realm being edited, whoever owns it.
    pub fn name(&self, owner: &str) -> (r: &'static str)
        ensures
            r@ == "New Editor"@,
    {
        "New Editor"
    }
}

} // verus!
