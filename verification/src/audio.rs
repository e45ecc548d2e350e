use vstd::prelude::*;

verus! {

/// Number of set bits among the lowest `n` bits of `x`.
pub open spec fn bits_set_below(x: u32, n: nat) -> nat
    decreases n,
{
    if n == 0 {
        0
    } else {
        bits_set_below(x, (n - 1) as nat) + if (x >> ((n - 1) as u32)) & 1 == 1 {
            1nat
        } else {
            0nat
        }
    }
}

/// Number of set bits of `x`.
pub open spec fn popcount(x: u32) -> nat {
    bits_set_below(x, 32)
}

proof fn lemma_bits_of_small_layouts()
    by (bit_vector)
    ensures
        forall|k: u32| k < 32 ==> (#[trigger] ((4u32 >> k) & 1u32) == 1u32) == (k == 2),
        forall|k: u32| k < 32 ==> (#[trigger] ((3u32 >> k) & 1u32) == 1u32) == (k < 2),
{
}

/// Front centre alone counts one channel; front left and right count two.
pub proof fn lemma_popcount_mono_stereo()
    ensures
        popcount(4) == 1,
        popcount(3) == 2,
{
    lemma_bits_of_small_layouts();
    reveal_with_fuel(bits_set_below, 33);
}

/// A set of speaker positions, one bit per position (the WAVE channel-mask layout).
#[derive(Clone, Copy, Debug, Default, PartialEq, Eq, Hash)]
pub struct ChannelLayout(pub u32);

impl ChannelLayout {
    pub fn front_left() -> (r: ChannelLayout)
        ensures
            r.0 == 1,
    {
        ChannelLayout(1)
    }

    pub fn front_right() -> (r: ChannelLayout)
        ensures
            r.0 == 2,
    {
        ChannelLayout(2)
    }

    pub fn front_center() -> (r: ChannelLayout)
        ensures
            r.0 == 4,
    {
        ChannelLayout(4)
    }

    pub fn low_frequency() -> (r: ChannelLayout)
        ensures
            r.0 == 8,
    {
        ChannelLayout(8)
    }

    pub fn back_left() -> (r: ChannelLayout)
        ensures
            r.0 == 16,
    {
        ChannelLayout(16)
    }

    pub fn back_right() -> (r: ChannelLayout)
        ensures
            r.0 == 32,
    {
        ChannelLayout(32)
    }

    pub fn back_center() -> (r: ChannelLayout)
        ensures
            r.0 == 256,
    {
        ChannelLayout(256)
    }

    pub fn side_left() -> (r: ChannelLayout)
        ensures
            r.0 == 512,
    {
        ChannelLayout(512)
    }

    pub fn side_right() -> (r: ChannelLayout)
        ensures
            r.0 == 1024,
    {
        ChannelLayout(1024)
    }

    pub fn mono() -> (r: ChannelLayout)
        ensures
            r.0 == 4,
    {
        ChannelLayout(4)
    }

    pub fn stereo() -> (r: ChannelLayout)
        ensures
            r.0 == 3,
    {
        ChannelLayout(3)
    }

    pub fn surround_5_1() -> (r: ChannelLayout)
        ensures
            r.0 == 63,
    {
        ChannelLayout(63)
    }

    pub fn from_bits(bits: u32) -> (r: Self)
        ensures
            r.0 == bits,
    {
        ChannelLayout(bits)
    }

    pub fn bits(self) -> (r: u32)
        ensures
            r == self.0,
    {
        self.0
    }

    /// Every position of `other` is also in `self`.
    pub fn contains(self, other: Self) -> (r: bool)
        ensures
            r == (self.0 & other.0 == other.0),
    {
        (self.0 & other.0) == other.0
    }

    pub fn is_empty(self) -> (r: bool)
        ensures
            r == (self.0 == 0),
    {
        self.0 == 0
    }

    /// The number of positions in the layout.
    pub fn count(self) -> (r: u32)
        ensures
            r == popcount(self.0),
            r <= 32,
    {
        let x = self.0;
        let mut c: u32 = 0;
        let mut i: u32 = 0;
        while i < 32
            invariant
                i <= 32,
                c == bits_set_below(x, i as nat),
                c <= i,
            decreases 32 - i,
        {
            if (x >> i) & 1 == 1 {
                c = c + 1;
            }
            i = i + 1;
        }
        c
    }

    /// The union of two layouts.
    pub fn union(self, other: Self) -> (r: Self)
        ensures
            r.0 == self.0 | other.0,
    {
        ChannelLayout(self.0 | other.0)
    }
}

impl core::ops::BitOr for ChannelLayout {
    type Output = ChannelLayout;

    fn bitor(self, rhs: Self) -> (r: Self) {
        ChannelLayout(self.0 | rhs.0)
    }
}

impl vstd::std_specs::ops::BitOrSpecImpl for ChannelLayout {
    open spec fn obeys_bitor_spec() -> bool {
        true
    }

    open spec fn bitor_req(self, rhs: ChannelLayout) -> bool {
        true
    }

    open spec fn bitor_spec(self, rhs: ChannelLayout) -> ChannelLayout {
        ChannelLayout(self.0 | rhs.0)
    }
}

/// A single speaker position.
#[derive(Clone, Copy, Debug, PartialEq, Eq, Hash)]
pub enum ChannelPosition {
    FrontLeft,
    FrontRight,
    FrontCenter,
    LowFrequency,
    BackLeft,
    BackRight,
    BackCenter,
    SideLeft,
    SideRight,
}

/// The layout bit of each position.
pub open spec fn position_bit(p: ChannelPosition) -> u32 {
    match p {
        ChannelPosition::FrontLeft => 1,
        ChannelPosition::FrontRight => 2,
        ChannelPosition::FrontCenter => 4,
        ChannelPosition::LowFrequency => 8,
        ChannelPosition::BackLeft => 16,
        ChannelPosition::BackRight => 32,
        ChannelPosition::BackCenter => 256,
        ChannelPosition::SideLeft => 512,
        ChannelPosition::SideRight => 1024,
    }
}

impl ChannelPosition {
    /// The one-position layout of this position.
    pub fn layout(self) -> (r: ChannelLayout)
        ensures
            r.0 == position_bit(self),
    {
        match self {
            ChannelPosition::FrontLeft => ChannelLayout::front_left(),
            ChannelPosition::FrontRight => ChannelLayout::front_right(),
            ChannelPosition::FrontCenter => ChannelLayout::front_center(),
            ChannelPosition::LowFrequency => ChannelLayout::low_frequency(),
            ChannelPosition::BackLeft => ChannelLayout::back_left(),
            ChannelPosition::BackRight => ChannelLayout::back_right(),
            ChannelPosition::BackCenter => ChannelLayout::back_center(),
            ChannelPosition::SideLeft => ChannelLayout::side_left(),
            ChannelPosition::SideRight => ChannelLayout::side_right(),
        }
    }
}

/// The storage format of one audio sample.
#[derive(Clone, Copy, Debug, PartialEq, Eq, Hash)]
pub enum SampleFormat {
    U8,
    I16,
    I24,
    I32,
    F32,
    F64,
}

pub open spec fn spec_bits_per_sample(f: SampleFormat) -> u32 {
    match f {
        SampleFormat::U8 => 8,
        SampleFormat::I16 => 16,
        SampleFormat::I24 => 24,
        SampleFormat::I32 => 32,
        SampleFormat::F32 => 32,
        SampleFormat::F64 => 64,
    }
}

impl SampleFormat {
    pub fn bits_per_sample(self) -> (r: u32)
        ensures
            r == spec_bits_per_sample(self),
    {
        match self {
            SampleFormat::U8 => 8,
            SampleFormat::I16 => 16,
            SampleFormat::I24 => 24,
            SampleFormat::I32 => 32,
            SampleFormat::F32 => 32,
            SampleFormat::F64 => 64,
        }
    }

    /// The same format, compared by variant.
    pub fn same_as(self, other: SampleFormat) -> (r: bool)
        ensures
            r == (self == other),
    {
        match (self, other) {
            (SampleFormat::U8, SampleFormat::U8) => true,
            (SampleFormat::I16, SampleFormat::I16) => true,
            (SampleFormat::I24, SampleFormat::I24) => true,
            (SampleFormat::I32, SampleFormat::I32) => true,
            (SampleFormat::F32, SampleFormat::F32) => true,
            (SampleFormat::F64, SampleFormat::F64) => true,
            _ => false,
        }
    }
}

/// The shape of the audio an encoder accepts.
#[derive(Clone, Copy, Debug, PartialEq, Eq, Hash)]
pub struct AudioSpec {
    pub sample_rate: u32,
    pub channels: ChannelLayout,
    pub sample_format: SampleFormat,
}

impl AudioSpec {
    /// A zero sample rate is a programming error, so it is excluded.
    pub fn new(sample_rate: u32, channels: ChannelLayout, sample_format: SampleFormat) -> (r: Self)
        requires
            sample_rate != 0,
        ensures
            r.sample_rate == sample_rate,
            r.channels == channels,
            r.sample_format == sample_format,
    {
        AudioSpec { sample_rate, channels, sample_format }
    }

    pub fn stereo_f32(sample_rate: u32) -> (r: Self)
        requires
            sample_rate != 0,
        ensures
            r.sample_rate == sample_rate,
            r.channels.0 == 3,
            r.sample_format == SampleFormat::F32,
    {
        Self::new(sample_rate, ChannelLayout::stereo(), SampleFormat::F32)
    }

    pub fn channel_count(self) -> (r: u32)
        ensures
            r == popcount(self.channels.0),
            r <= 32,
    {
        self.channels.count()
    }
}

/// Interleaved input samples of one format.
///
/// Floating-point samples are carried as their IEEE-754 bit patterns
/// (`f32::to_bits` / `f64::to_bits`), which is all the encoders read of them.
#[derive(Clone, Copy, Debug)]
pub enum AudioBufferRef<'a> {
    U8(&'a [u8]),
    I16(&'a [i16]),
    I24(&'a [i32]),
    I32(&'a [i32]),
    F32(&'a [u32]),
    F64(&'a [u64]),
}

impl<'a> AudioBufferRef<'a> {
    pub open spec fn spec_sample_format(self) -> SampleFormat {
        match self {
            AudioBufferRef::U8(_) => SampleFormat::U8,
            AudioBufferRef::I16(_) => SampleFormat::I16,
            AudioBufferRef::I24(_) => SampleFormat::I24,
            AudioBufferRef::I32(_) => SampleFormat::I32,
            AudioBufferRef::F32(_) => SampleFormat::F32,
            AudioBufferRef::F64(_) => SampleFormat::F64,
        }
    }

    pub open spec fn spec_len(self) -> nat {
        match self {
            AudioBufferRef::U8(d) => d@.len(),
            AudioBufferRef::I16(d) => d@.len(),
            AudioBufferRef::I24(d) => d@.len(),
            AudioBufferRef::I32(d) => d@.len(),
            AudioBufferRef::F32(d) => d@.len(),
            AudioBufferRef::F64(d) => d@.len(),
        }
    }

    pub fn sample_format(self) -> (r: SampleFormat)
        ensures
            r == self.spec_sample_format(),
    {
        match self {
            AudioBufferRef::U8(_) => SampleFormat::U8,
            AudioBufferRef::I16(_) => SampleFormat::I16,
            AudioBufferRef::I24(_) => SampleFormat::I24,
            AudioBufferRef::I32(_) => SampleFormat::I32,
            AudioBufferRef::F32(_) => SampleFormat::F32,
            AudioBufferRef::F64(_) => SampleFormat::F64,
        }
    }

    pub fn len(self) -> (r: usize)
        ensures
            r == self.spec_len(),
    {
        match self {
            AudioBufferRef::U8(d) => d.len(),
            AudioBufferRef::I16(d) => d.len(),
            AudioBufferRef::I24(d) => d.len(),
            AudioBufferRef::I32(d) => d.len(),
            AudioBufferRef::F32(d) => d.len(),
            AudioBufferRef::F64(d) => d.len(),
        }
    }

    pub fn is_empty(self) -> (r: bool)
        ensures
            r == (self.spec_len() == 0),
    {
        self.len() == 0
    }
}

} // verus!
