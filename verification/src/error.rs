use vstd::prelude::*;

verus! {

/// The failures a build can report.
#[derive(Clone, Copy, Debug, PartialEq, Eq, Structural)]
pub enum BuildError {
    /// The requested character has no glyph in the supplied font.
    CharacterNotFound(char),
    /// A clockwise contour arrived before any counter-clockwise exterior
    /// existed, so there was no region to attach the hole to.
    HoleBeforeExterior,
    /// An absolute decoded coordinate left the accepted range.
    CoordinateOverflow,
}

impl BuildError {
    /// A short description of the failure.
    pub fn message(&self) -> (r: &'static str)
    {
        match self {
            BuildError::CharacterNotFound(_) => "character not in font",
            BuildError::HoleBeforeExterior => "clockwise contour before any exterior",
            BuildError::CoordinateOverflow => "decoded coordinate out of range",
        }
    }
}

} // verus!
