//! Typed positions inside the grid.

use vstd::prelude::*;

verus! {

/// A column index or a column count, kept apart from other integers.
#[derive(Debug, Clone, Copy, PartialEq, Eq, Structural)]
pub struct Column(pub usize);

impl Column {
    /// The number the column wraps.
    pub fn get(self) -> (r: usize)
        ensures
            r == self.0,
    {
        self.0
    }
}

} // verus!
