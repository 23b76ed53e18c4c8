use vstd::prelude::*;

verus! {

/// One eye's offscreen render target, modeled by the dimensions of its
/// color buffer. The GPU color buffer itself lives outside the library and
/// is created with exactly these dimensions.
#[derive(Clone, Copy, PartialEq, Eq, Structural, Debug)]
pub struct EyeTarget {
    pub width: u32,
    pub height: u32,
}

impl EyeTarget {
    /// Describe one eye's render target with the given dimensions.
    pub fn new(width: u32, height: u32) -> (t: EyeTarget)
        ensures
            t.width == width,
            t.height == height,
    {
        EyeTarget { width, height }
    }
}

/// Both eye targets together with the recommended render-target size they
/// were built from. The size is captured once, at construction, and never
/// re-queried: no method of the pair changes any of its fields.
#[derive(Clone, Copy, PartialEq, Eq, Structural, Debug)]
pub struct EyePair {
    pub left: EyeTarget,
    pub right: EyeTarget,
    pub recommended_width: u32,
    pub recommended_height: u32,
}

impl EyePair {
    /// Both targets carry exactly the recommended dimensions.
    pub open spec fn wf(self) -> bool {
        &&& self.left.width == self.recommended_width
        &&& self.left.height == self.recommended_height
        &&& self.right.width == self.recommended_width
        &&& self.right.height == self.recommended_height
    }

    /// Build both eye targets from the recommended render-target size the
    /// device reported at startup.
    pub fn allocate(recommended_width: u32, recommended_height: u32) -> (p: EyePair)
        ensures
            p.wf(),
            p.recommended_width == recommended_width,
            p.recommended_height == recommended_height,
    {
        EyePair {
            left: EyeTarget::new(recommended_width, recommended_height),
            right: EyeTarget::new(recommended_width, recommended_height),
            recommended_width,
            recommended_height,
        }
    }
}

/// Law: the two eye targets of a well-formed pair always have identical
/// dimensions, equal to the recommended size captured at construction.
pub proof fn lemma_eye_targets_match(p: EyePair)
    requires
        p.wf(),
    ensures
        p.left.width == p.right.width,
        p.left.height == p.right.height,
        p.left.width == p.recommended_width,
        p.left.height == p.recommended_height,
{
}

} // verus!
