//! The amplitude value that every stage of the link carries.

use vstd::prelude::*;

verus! {

/// One audio sample: a single-precision amplitude, held as its IEEE-754 bit
/// pattern. The link moves samples around and never does arithmetic on them,
/// so the pattern is all it needs. Amplitudes are nominally between minus one
/// and one, but nothing here clamps them: every pattern is carried as it is.
#[derive(Clone, Copy, Debug, PartialEq, Eq, Structural)]
pub struct Sample {
    pub bits: u32,
}

impl Sample {
    /// The sample that is played when there is nothing to play: positive
    /// zero, the pattern with no bit set.
    pub open spec fn spec_silence() -> Sample {
        Sample { bits: 0 }
    }

    /// The sample that is played when there is nothing to play.
    #[verifier::when_used_as_spec(spec_silence)]
    pub fn silence() -> (s: Sample)
        ensures
            s == Sample::silence(),
    {
        Sample { bits: 0 }
    }
}

} // verus!
