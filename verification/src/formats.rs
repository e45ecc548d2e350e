//! Containers: track descriptions and the muxer interface.
use vstd::prelude::*;

use crate::codecs::{CodecParameters, PacketSink};
use crate::error::Error;
use crate::packet::EncodedPacket;
use crate::units::TimeBase;

verus! {

/// The container formats the library can write.
#[derive(Clone, Copy, Debug, PartialEq, Eq, Hash, Structural)]
#[non_exhaustive]
pub enum FormatId {
    Riff,
    Ogg,
    Flac,
    IsoBmff,
}

/// What a muxer reports when it completes a file.
#[derive(Clone, Copy, Debug, PartialEq, Eq)]
pub struct FinalizeSummary {
    pub bytes_written: Option<u64>,
    pub packet_count: u64,
    pub total_samples: Option<u64>,
}

impl Default for FinalizeSummary {
    fn default() -> (r: Self)
        ensures
            r.bytes_written is None,
            r.packet_count == 0,
            r.total_samples is None,
    {
        FinalizeSummary { bytes_written: None, packet_count: 0, total_samples: None }
    }
}

/// The identifier a muxer gives a track.
#[derive(Clone, Copy, Debug, PartialEq, Eq, Hash, Structural)]
pub struct TrackId(pub u32);

/// A track to be added to a muxer.
#[derive(Clone, Debug, PartialEq, Eq)]
pub struct TrackSpec {
    pub codec_params: CodecParameters,
    pub time_base: TimeBase,
    pub language: Option<String>,
    pub name: Option<String>,
}

impl TrackSpec {
    pub fn new(codec_params: CodecParameters, time_base: TimeBase) -> (r: Self)
        ensures
            r.codec_params == codec_params,
            r.time_base == time_base,
            r.language is None,
            r.name is None,
    {
        TrackSpec { codec_params, time_base, language: None, name: None }
    }
}

/// A container writer: tracks are added, packets written, then the file is
/// finalized.
///
/// `muxer_inv` is the implementation's own consistency condition; every
/// operation keeps it, whether it succeeds or fails.
pub trait Muxer: Sized {
    spec fn muxer_inv(&self) -> bool;

    fn format_id(&self) -> FormatId;

    fn add_track(&mut self, spec: TrackSpec) -> (r: Result<TrackId, Error>)
        requires
            old(self).muxer_inv(),
        ensures
            final(self).muxer_inv(),
    ;

    /// Whether writing `packet` to `track` in this state succeeds.
    spec fn write_accepts(&self, track: TrackId, packet: EncodedPacket) -> bool;

    /// Writes a packet to a track; succeeds exactly when `write_accepts`
    /// holds, and leaves the muxer as it was when it fails.
    fn write_packet(&mut self, track: TrackId, packet: EncodedPacket) -> (r: Result<(), Error>)
        requires
            old(self).muxer_inv(),
        ensures
            final(self).muxer_inv(),
            r is Ok <==> old(self).write_accepts(track, packet),
            r is Err ==> *final(self) == *old(self),
    ;

    fn flush(&mut self) -> (r: Result<(), Error>)
        requires
            old(self).muxer_inv(),
        ensures
            final(self).muxer_inv(),
    ;

    fn finalize(&mut self) -> (r: Result<FinalizeSummary, Error>)
        requires
            old(self).muxer_inv(),
        ensures
            final(self).muxer_inv(),
    ;
}

/// A packet sink that writes every packet to one track of a muxer.
pub struct TrackWriter<'a, M: Muxer> {
    muxer: &'a mut M,
    track: TrackId,
    sent: Ghost<Seq<EncodedPacket>>,
}

impl<'a, M: Muxer> TrackWriter<'a, M> {
    pub closed spec fn spec_track(&self) -> TrackId {
        self.track
    }

    /// The muxer written to, in its current state.
    pub closed spec fn target(&self) -> M {
        *self.muxer
    }

    pub fn new(muxer: &'a mut M, track: TrackId) -> (r: Self)
        ensures
            r.spec_track() == track,
            r.accepted().len() == 0,
            r.target() == *old(muxer),
    {
        TrackWriter { muxer, track, sent: Ghost(Seq::empty()) }
    }

    pub fn track(&self) -> (r: TrackId)
        ensures
            r == self.spec_track(),
    {
        self.track
    }
}

impl<'a, M: Muxer> PacketSink for TrackWriter<'a, M> {
    closed spec fn accepted(&self) -> Seq<EncodedPacket> {
        self.sent@
    }

    open spec fn sink_inv(&self) -> bool {
        self.target().muxer_inv()
    }

    open spec fn infallible(&self) -> bool {
        false
    }

    /// Writes the packet to the writer's track of its muxer.
    fn write_packet(&mut self, packet: EncodedPacket) -> (r: Result<(), Error>)
        ensures
            final(self).spec_track() == old(self).spec_track(),
            r is Ok <==> old(self).target().write_accepts(old(self).spec_track(), packet),
            r is Err ==> final(self).target() == old(self).target(),
    {
        let ghost p = packet;
        let r = self.muxer.write_packet(self.track, packet);
        if r.is_ok() {
            self.sent = Ghost(self.sent@.push(p));
        }
        r
    }
}

/// Convenience methods on every muxer.
pub trait MuxerExt: Muxer + Sized {
    /// A sink that writes to `track` of this muxer.
    fn track_writer(&mut self, track: TrackId) -> (r: TrackWriter<'_, Self>)
        ensures
            r.spec_track() == track,
            r.accepted().len() == 0,
            r.target() == *old(self),
    {
        TrackWriter::new(self, track)
    }
}

impl<T: Muxer> MuxerExt for T {

}

} // verus!
