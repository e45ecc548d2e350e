use vstd::prelude::*;

verus! {

/// A presentation or decode timestamp, counted in units of a track's time base.
#[derive(Clone, Copy, Debug, Default, PartialEq, Eq, PartialOrd, Ord, Hash)]
pub struct Timestamp(pub u64);

impl Timestamp {
    pub fn new(value: u64) -> (r: Self)
        ensures
            r.0 == value,
    {
        Timestamp(value)
    }

    pub fn get(self) -> (r: u64)
        ensures
            r == self.0,
    {
        self.0
    }
}

/// A rational time base `numer / denom` seconds per tick; both parts are non-zero.
#[derive(Clone, Copy, Debug, PartialEq, Eq, Hash)]
pub struct TimeBase {
    numer: u32,
    denom: u32,
}

impl TimeBase {
    pub closed spec fn spec_numer(self) -> u32 {
        self.numer
    }

    pub closed spec fn spec_denom(self) -> u32 {
        self.denom
    }

    /// Both parts of every time base are non-zero.
    #[verifier::type_invariant]
    closed spec fn wf(self) -> bool {
        self.numer != 0 && self.denom != 0
    }

    /// Builds `numer / denom`; a zero part is a programming error, so it is excluded.
    pub fn new(numer: u32, denom: u32) -> (r: Self)
        requires
            numer != 0,
            denom != 0,
        ensures
            r.spec_numer() == numer,
            r.spec_denom() == denom,
    {
        TimeBase { numer, denom }
    }

    /// One tick per sample at `sample_rate` Hz.
    pub fn audio_sample_rate(sample_rate: u32) -> (r: Self)
        requires
            sample_rate != 0,
        ensures
            r.spec_numer() == 1,
            r.spec_denom() == sample_rate,
    {
        Self::new(1, sample_rate)
    }

    pub fn numer(self) -> (r: u32)
        ensures
            r == self.spec_numer(),
            r != 0,
    {
        proof {
            use_type_invariant(&self);
        }
        self.numer
    }

    pub fn denom(self) -> (r: u32)
        ensures
            r == self.spec_denom(),
            r != 0,
    {
        proof {
            use_type_invariant(&self);
        }
        self.denom
    }
}

impl Default for TimeBase {
    fn default() -> (r: Self)
        ensures
            r.spec_numer() == 1,
            r.spec_denom() == 1,
    {
        TimeBase { numer: 1, denom: 1 }
    }
}

} // verus!
