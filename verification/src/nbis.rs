//! Plain records of the minutiae extractor: minutia kinds, positions and the
//! region of interest of a fingerprint image.

use vstd::prelude::*;

verus! {

/// The two kinds of minutiae.
#[derive(Debug, Clone, Copy, PartialEq, Eq, Structural)]
pub enum MinutiaKind {
    RidgeEnding,
    Bifurcation,
}

impl MinutiaKind {
    /// The extractor's code of the kind: 1 for a ridge ending, 2 for a
    /// bifurcation.
    pub fn code(&self) -> (r: i32)
        ensures
            r == (match self {
                MinutiaKind::RidgeEnding => 1i32,
                MinutiaKind::Bifurcation => 2i32,
            }),
    {
        match self {
            MinutiaKind::RidgeEnding => 1,
            MinutiaKind::Bifurcation => 2,
        }
    }
}

/// The position of a minutia, in pixels.
#[derive(Debug, Clone, Copy, PartialEq, Eq, Structural)]
pub struct Position {
    pub x: i32,
    pub y: i32,
}

/// A point of an image, in pixels.
#[derive(Debug, Clone, Copy, PartialEq, Eq, Structural)]
pub struct Point {
    pub x: i32,
    pub y: i32,
}

/// The region of interest of a fingerprint: its corners and its center.
#[derive(Debug, Clone, Copy, PartialEq, Eq, Structural)]
pub struct ROI {
    pub x1: i32,
    pub y1: i32,
    pub x2: i32,
    pub y2: i32,
    pub center: Point,
}

} // verus!
