use vstd::prelude::*;

use crate::units::Timestamp;

verus! {

/// Flags attached to an encoded packet, one bit per flag.
#[derive(Clone, Copy, Debug, Default, PartialEq, Eq, Hash)]
pub struct PacketFlags(pub u32);

impl PacketFlags {
    pub fn none() -> (r: PacketFlags)
        ensures
            r.0 == 0,
    {
        PacketFlags(0)
    }

    pub fn keyframe() -> (r: PacketFlags)
        ensures
            r.0 == 1,
    {
        PacketFlags(1)
    }

    pub fn header() -> (r: PacketFlags)
        ensures
            r.0 == 2,
    {
        PacketFlags(2)
    }

    pub fn eos() -> (r: PacketFlags)
        ensures
            r.0 == 4,
    {
        PacketFlags(4)
    }

    pub fn from_bits(bits: u32) -> (r: Self)
        ensures
            r.0 == bits,
    {
        PacketFlags(bits)
    }

    pub fn bits(self) -> (r: u32)
        ensures
            r == self.0,
    {
        self.0
    }

    /// Every flag of `other` is also set in `self`.
    pub fn contains(self, other: Self) -> (r: bool)
        ensures
            r == (self.0 & other.0 == other.0),
    {
        (self.0 & other.0) == other.0
    }

    pub fn is_empty(self) -> (r: bool)
        ensures
            r == (self.0 == 0),
    {
        self.0 == 0
    }
}

impl core::ops::BitOr for PacketFlags {
    type Output = PacketFlags;

    fn bitor(self, rhs: Self) -> (r: Self) {
        PacketFlags(self.0 | rhs.0)
    }
}

impl vstd::std_specs::ops::BitOrSpecImpl for PacketFlags {
    open spec fn obeys_bitor_spec() -> bool {
        true
    }

    open spec fn bitor_req(self, rhs: PacketFlags) -> bool {
        true
    }

    open spec fn bitor_spec(self, rhs: PacketFlags) -> PacketFlags {
        PacketFlags(self.0 | rhs.0)
    }
}

/// One packet of coded audio with its timing.
#[derive(Clone, Debug, PartialEq, Eq)]
pub struct EncodedPacket {
    pub pts: Option<Timestamp>,
    pub dts: Option<Timestamp>,
    pub duration: Option<u64>,
    pub trim_start: u32,
    pub trim_end: u32,
    pub flags: PacketFlags,
    pub data: Vec<u8>,
}

impl EncodedPacket {
    pub fn new(data: Vec<u8>) -> (r: Self)
        ensures
            r.data@ == data@,
            r.pts is None,
            r.dts is None,
            r.duration is None,
            r.trim_start == 0,
            r.trim_end == 0,
            r.flags.0 == 0,
    {
        EncodedPacket {
            pts: None,
            dts: None,
            duration: None,
            trim_start: 0,
            trim_end: 0,
            flags: PacketFlags(0),
            data,
        }
    }

    pub fn is_empty(&self) -> (r: bool)
        ensures
            r == (self.data@.len() == 0),
    {
        self.data.len() == 0
    }
}

impl Default for EncodedPacket {
    fn default() -> (r: Self)
        ensures
            r.data@.len() == 0,
            r.pts is None,
            r.dts is None,
            r.duration is None,
            r.trim_start == 0,
            r.trim_end == 0,
            r.flags.0 == 0,
    {
        EncodedPacket::new(Vec::new())
    }
}

} // verus!
