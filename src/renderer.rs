use vstd::prelude::*;

verus! {

/// The screen rectangle the map is drawn into: columns `x ..= w`, rows `y ..= h`.
#[derive(Debug, Clone, Copy, PartialEq, Eq, Structural)]
pub struct Viewport {
    pub x: i32,
    pub y: i32,
    pub w: i32,
    pub h: i32,
}

} // verus!
