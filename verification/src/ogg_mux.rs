//! The Ogg Opus muxer: identification and comment headers, then one audio
//! packet per page run, the last one marked end-of-stream.
use vstd::prelude::*;

use crate::audio::popcount;
use crate::bits::{le32, push_all, push_le32, push_le64};
use crate::codecs::{CodecId, CodecParameters, CodecSpecific, OpusStreamMapping};
use crate::crc::{ogg_crc, spec_crc32};
use crate::error::Error;
use crate::formats::{FinalizeSummary, FormatId, Muxer, TrackId, TrackSpec};
use crate::io::{lemma_placed_append, placed, splice, ByteCursor};
use crate::ogg_head::{
    build_opus_head, build_opus_tags, default_pre_skip, default_pre_skip_from_codec_params,
    extract_opus_stream_mapping, mapping_valid, opt_deref, opus_head, opus_head_ok, opus_samples,
    opus_samples_exact, opus_tags, opus_tags_ok, scale_to_opus_samples,
    validate_opus_stream_mapping,
};
use crate::ogg_page::{
    build_lacing_values, lace_sum, lacing, lemma_lace_sum_concat, lemma_lace_sum_nonneg,
    lemma_lacing_sum, lemma_pages_from_len, ogg_packet_pages, ogg_page, page_count_at, page_raw,
    pages_from, pages_needed, OGG_HEADER_TYPE_BOS, OGG_HEADER_TYPE_CONTINUED, OGG_HEADER_TYPE_EOS,
};
use crate::packet::EncodedPacket;
use crate::units::TimeBase;
use crate::vorbis::VorbisComments;

verus! {

pub const DEFAULT_SERIAL_NUMBER: u32 = 0x6469_7373;

/// The number of pages a packet of `len` bytes takes.
pub open spec fn packet_page_count(len: nat) -> nat {
    pages_needed(len / 255 + 1, 0)
}

/// The number of bytes the pages of a packet of `len` bytes take.
pub open spec fn packet_pages_len(len: nat) -> nat {
    27 * packet_page_count(len) + (len / 255 + 1) + len
}

pub proof fn lemma_packet_pages_len(
    p: Seq<u8>,
    granule: u64,
    first_flags: u8,
    last_flags: u8,
    serial: u32,
    seq: int,
)
    ensures
        ogg_packet_pages(p, granule, first_flags, last_flags, serial, seq).len() == packet_pages_len(
            p.len(),
        ),
        packet_page_count(p.len()) >= 1,
{
    lemma_lacing_sum(p.len());
    let l = lacing(p.len());
    assert(l.subrange(0, l.len() as int) =~= l);
    lemma_pages_from_len(l, p, 0, 0, true, granule, first_flags, last_flags, serial, seq);
}

/// Options of the Ogg Opus muxer.
#[derive(Clone, Debug, PartialEq, Eq)]
pub struct OggOpusMuxerOptions {
    pub serial_number: u32,
    pub comments: VorbisComments,
    /// The pre-skip to declare; derived from the encoder delay when `None`.
    pub pre_skip: Option<u16>,
    pub output_gain: i16,
}

impl Default for OggOpusMuxerOptions {
    fn default() -> (r: Self)
        ensures
            r.serial_number == DEFAULT_SERIAL_NUMBER,
            r.comments.spec_vendor() == "dissonia"@,
            r.comments.spec_entries().len() == 0,
            r.pre_skip is None,
            r.output_gain == 0,
    {
        OggOpusMuxerOptions {
            serial_number: DEFAULT_SERIAL_NUMBER,
            comments: VorbisComments::new("dissonia"),
            pre_skip: None,
            output_gain: 0,
        }
    }
}

/// Builds an `OggOpusMuxer`.
#[derive(Debug)]
pub struct OggOpusMuxerBuilder {
    writer: ByteCursor,
    options: OggOpusMuxerOptions,
}

impl OggOpusMuxerBuilder {
    pub closed spec fn spec_writer(&self) -> ByteCursor {
        self.writer
    }

    pub closed spec fn spec_options(&self) -> OggOpusMuxerOptions {
        self.options
    }

    pub fn new(writer: ByteCursor) -> (r: Self)
        ensures
            r.spec_writer() == writer,
            r.spec_options().serial_number == DEFAULT_SERIAL_NUMBER,
            r.spec_options().comments.spec_vendor() == "dissonia"@,
            r.spec_options().comments.spec_entries().len() == 0,
            r.spec_options().pre_skip is None,
            r.spec_options().output_gain == 0,
    {
        OggOpusMuxerBuilder { writer, options: OggOpusMuxerOptions::default() }
    }

    pub fn options(self, options: OggOpusMuxerOptions) -> (r: Self)
        ensures
            r.spec_writer() == self.spec_writer(),
            r.spec_options() == options,
    {
        let mut b = self;
        b.options = options;
        b
    }

    pub fn serial_number(self, serial_number: u32) -> (r: Self)
        ensures
            r.spec_writer() == self.spec_writer(),
            r.spec_options() == (OggOpusMuxerOptions { serial_number, ..self.spec_options() }),
    {
        let mut b = self;
        b.options.serial_number = serial_number;
        b
    }

    pub fn vendor_string(self, vendor_string: &str) -> (r: Self)
        ensures
            r.spec_writer() == self.spec_writer(),
            r.spec_options().comments.spec_vendor() == vendor_string@,
            r.spec_options().comments.spec_entries() == self.spec_options().comments.spec_entries(),
            r.spec_options().serial_number == self.spec_options().serial_number,
            r.spec_options().pre_skip == self.spec_options().pre_skip,
            r.spec_options().output_gain == self.spec_options().output_gain,
    {
        let mut b = self;
        b.options.comments.set_vendor(vendor_string);
        b
    }

    pub fn comment(self, field: &str, value: &str) -> (r: Self)
        ensures
            r.spec_writer() == self.spec_writer(),
            r.spec_options().comments.spec_vendor() == self.spec_options().comments.spec_vendor(),
            r.spec_options().comments.spec_entries() == self.spec_options().comments.spec_entries().push(
                (field@, value@),
            ),
            r.spec_options().serial_number == self.spec_options().serial_number,
            r.spec_options().pre_skip == self.spec_options().pre_skip,
            r.spec_options().output_gain == self.spec_options().output_gain,
    {
        let mut b = self;
        b.options.comments.add(field, value);
        b
    }

    pub fn comments(self, comments: VorbisComments) -> (r: Self)
        ensures
            r.spec_writer() == self.spec_writer(),
            r.spec_options() == (OggOpusMuxerOptions { comments, ..self.spec_options() }),
    {
        let mut b = self;
        b.options.comments = comments;
        b
    }

    pub fn pre_skip(self, pre_skip: u16) -> (r: Self)
        ensures
            r.spec_writer() == self.spec_writer(),
            r.spec_options() == (OggOpusMuxerOptions { pre_skip: Some(pre_skip), ..self.spec_options() }),
    {
        let mut b = self;
        b.options.pre_skip = Some(pre_skip);
        b
    }

    pub fn output_gain(self, output_gain: i16) -> (r: Self)
        ensures
            r.spec_writer() == self.spec_writer(),
            r.spec_options() == (OggOpusMuxerOptions { output_gain, ..self.spec_options() }),
    {
        let mut b = self;
        b.options.output_gain = output_gain;
        b
    }

    pub fn build(self) -> (r: OggOpusMuxer)
        ensures
            r.muxer_inv(),
            r.origin() == self.spec_writer().bytes(),
            r.start() == self.spec_writer().pos(),
            r.written().len() == 0,
            r.options() == self.spec_options(),
            !r.has_track(),
            !r.is_finalized(),
    {
        let ghost origin = self.writer.bytes();
        let ghost start = self.writer.pos();
        proof {
            self.writer.lemma_pos_nonneg();
        }
        OggOpusMuxer {
            writer: self.writer,
            options: self.options,
            track: None,
            pending_packet: None,
            audio_granule_position: 0,
            page_sequence_number: 0,
            bytes_written: 0,
            packet_count: 0,
            finalized: false,
            origin: Ghost(origin),
            start: Ghost(start),
            written: Ghost(Seq::empty()),
        }
    }
}

#[derive(Clone, Copy, Debug)]
struct TrackState {
    id: TrackId,
    time_base: TimeBase,
    pre_skip: u16,
}

#[derive(Debug)]
struct PendingAudioPacket {
    data: Vec<u8>,
    granule_position: u64,
    trim_end: u64,
}

/// The Ogg Opus muxer.
///
/// Each audio packet is held back until the next one arrives, so that the
/// last one can be written with the end-of-stream flag and its trimmed
/// granule position. As ghost state it keeps the cursor's bytes and position
/// when it was built and everything written since.
pub struct OggOpusMuxer {
    writer: ByteCursor,
    options: OggOpusMuxerOptions,
    track: Option<TrackState>,
    pending_packet: Option<PendingAudioPacket>,
    audio_granule_position: u64,
    page_sequence_number: u64,
    bytes_written: u64,
    packet_count: u64,
    finalized: bool,
    origin: Ghost<Seq<u8>>,
    start: Ghost<int>,
    written: Ghost<Seq<u8>>,
}

/// The channel count of a track, as the header carries it.
pub open spec fn opus_channel_count(params: CodecParameters) -> u8 {
    popcount(params.channels.0) as u8
}

/// The mapping a track carries, when it is Opus metadata.
pub open spec fn track_mapping(params: CodecParameters) -> Option<OpusStreamMapping> {
    match params.codec_specific {
        Some(CodecSpecific::Opus(m)) => Some(m),
        _ => None,
    }
}

/// The pre-skip the header declares.
pub open spec fn chosen_pre_skip(opts: OggOpusMuxerOptions, params: CodecParameters) -> u16 {
    match opts.pre_skip {
        Some(v) => v,
        None => default_pre_skip(params.encoder_delay, params.sample_rate) as u16,
    }
}

/// Whether the pre-skip can be determined.
pub open spec fn pre_skip_ok(opts: OggOpusMuxerOptions, params: CodecParameters) -> bool {
    match opts.pre_skip {
        Some(_) => true,
        None => {
            &&& params.sample_rate != 0
            &&& (params.encoder_delay * 48000) % (params.sample_rate as int) == 0
            &&& default_pre_skip(params.encoder_delay, params.sample_rate) <= u16::MAX
        },
    }
}

/// The identification header of a track.
pub open spec fn track_head(opts: OggOpusMuxerOptions, params: CodecParameters) -> Seq<u8> {
    opus_head(
        opus_channel_count(params),
        chosen_pre_skip(opts, params),
        params.sample_rate,
        opts.output_gain,
        track_mapping(params),
    )
}

/// The two header packets, each on its own pages.
pub open spec fn ogg_opus_headers(opts: OggOpusMuxerOptions, params: CodecParameters) -> Seq<u8> {
    let head = track_head(opts, params);
    ogg_packet_pages(head, 0, OGG_HEADER_TYPE_BOS, 0, opts.serial_number, 0) + ogg_packet_pages(
        opus_tags(opts.comments),
        0,
        0,
        0,
        opts.serial_number,
        packet_page_count(head.len()) as int,
    )
}

/// Whether `add_track` succeeds on a fresh muxer with `opts` whose cursor is at `pos`.
pub open spec fn ogg_add_ok(opts: OggOpusMuxerOptions, params: CodecParameters, pos: int) -> bool {
    let head = track_head(opts, params);
    let tags = opus_tags(opts.comments);
    &&& params.codec == CodecId::Opus
    &&& popcount(params.channels.0) != 0
    &&& (params.codec_specific is None || track_mapping(params) is Some)
    &&& mapping_valid(opus_channel_count(params), track_mapping(params))
    &&& pre_skip_ok(opts, params)
    &&& opus_tags_ok(opts.comments)
    &&& packet_page_count(head.len()) + packet_page_count(tags.len()) - 1 <= u32::MAX
    &&& pos + packet_pages_len(head.len()) + packet_pages_len(tags.len()) <= usize::MAX
}

impl OggOpusMuxer {
    pub closed spec fn origin(&self) -> Seq<u8> {
        self.origin@
    }

    pub closed spec fn start(&self) -> int {
        self.start@
    }

    /// Everything written since the muxer was built.
    pub closed spec fn written(&self) -> Seq<u8> {
        self.written@
    }

    pub closed spec fn options(&self) -> OggOpusMuxerOptions {
        self.options
    }

    pub closed spec fn has_track(&self) -> bool {
        self.track is Some
    }

    pub closed spec fn is_finalized(&self) -> bool {
        self.finalized
    }

    pub closed spec fn track_time_base(&self) -> TimeBase {
        self.track->0.time_base
    }

    pub closed spec fn track_pre_skip(&self) -> u16 {
        self.track->0.pre_skip
    }

    /// The audio packet held back: its bytes, its granule position and its
    /// end trim, both in 48 kHz samples.
    pub closed spec fn pending(&self) -> Option<(Seq<u8>, u64, u64)> {
        match self.pending_packet {
            Some(p) => Some((p.data@, p.granule_position, p.trim_end)),
            None => None,
        }
    }

    /// The 48 kHz samples of all audio packets accepted.
    pub closed spec fn granule(&self) -> u64 {
        self.audio_granule_position
    }

    /// The sequence number of the next page.
    pub closed spec fn page_seq(&self) -> int {
        self.page_sequence_number as int
    }

    pub closed spec fn packet_count(&self) -> u64 {
        self.packet_count
    }

    pub closed spec fn cursor(&self) -> ByteCursor {
        self.writer
    }

    /// The cursor holds what was written.
    closed spec fn io_wf(&self) -> bool {
        &&& self.start@ >= 0
        &&& self.writer.bytes() == placed(self.origin@, self.start@, self.written@)
        &&& self.writer.pos() == self.start@ + self.written@.len()
        &&& self.bytes_written == self.written@.len()
    }

    pub closed spec fn wf(&self) -> bool {
        &&& self.io_wf()
        &&& self.track is Some ==> self.track->0.id == TrackId(0)
        &&& self.track is None ==> {
            &&& self.written@.len() == 0
            &&& self.pending_packet is None
            &&& self.audio_granule_position == 0
            &&& self.page_sequence_number == 0
            &&& self.packet_count == 0
            &&& !self.finalized
        }
        &&& self.finalized ==> self.pending_packet is None
    }

    pub fn new(writer: ByteCursor) -> (r: Self)
        ensures
            r.muxer_inv(),
            r.origin() == writer.bytes(),
            r.start() == writer.pos(),
            r.written().len() == 0,
            r.options().serial_number == DEFAULT_SERIAL_NUMBER,
            r.options().comments.spec_vendor() == "dissonia"@,
            r.options().comments.spec_entries().len() == 0,
            r.options().pre_skip is None,
            r.options().output_gain == 0,
            !r.has_track(),
            !r.is_finalized(),
    {
        Self::builder(writer).build()
    }

    pub fn builder(writer: ByteCursor) -> (r: OggOpusMuxerBuilder)
        ensures
            r.spec_writer() == writer,
            r.spec_options().serial_number == DEFAULT_SERIAL_NUMBER,
            r.spec_options().comments.spec_vendor() == "dissonia"@,
            r.spec_options().comments.spec_entries().len() == 0,
            r.spec_options().pre_skip is None,
            r.spec_options().output_gain == 0,
    {
        OggOpusMuxerBuilder::new(writer)
    }

    /// Gives back the cursor.
    pub fn into_inner(self) -> (r: ByteCursor)
        ensures
            r == self.cursor(),
    {
        self.writer
    }

    fn ensure_writable(&self) -> (r: Result<(), Error>)
        ensures
            r is Ok <==> !self.finalized,
            r is Err ==> r->Err_0 matches Error::InvalidState(_),
    {
        if self.finalized {
            return Err(Error::InvalidState("muxer already finalized"));
        }
        Ok(())
    }

    /// The page count and byte length of the pages of a packet of `len` bytes.
    fn packet_cost(len: usize) -> (r: (u64, u128))
        ensures
            r.0 == packet_page_count(len as nat),
            r.1 == packet_pages_len(len as nat),
    {
        let nl: u64 = (len / 255) as u64 + 1;
        let np: u64 = (nl + 254) / 255;
        let total: u128 = 27 * (np as u128) + (nl as u128) + (len as u128);
        (np, total)
    }

    /// Writes one page at the end of the stream.
    fn write_page(&mut self, header_type: u8, granule_position: u64, segment_table: &[u8], body: &[u8]) -> (r:
        Result<(), Error>)
        requires
            old(self).io_wf(),
            segment_table@.len() <= 255,
            old(self).page_sequence_number <= u32::MAX,
            old(self).writer.pos() + 27 + segment_table@.len() + body@.len() <= usize::MAX,
        ensures
            r is Ok,
            final(self).io_wf(),
            final(self).written@ == old(self).written@ + ogg_page(
                header_type,
                granule_position,
                old(self).options.serial_number,
                old(self).page_sequence_number as u32,
                segment_table@,
                body@,
            ),
            final(self).page_sequence_number == old(self).page_sequence_number + 1,
            final(self).origin == old(self).origin,
            final(self).start == old(self).start,
            final(self).options == old(self).options,
            final(self).track == old(self).track,
            final(self).pending_packet == old(self).pending_packet,
            final(self).audio_granule_position == old(self).audio_granule_position,
            final(self).packet_count == old(self).packet_count,
            final(self).finalized == old(self).finalized,
    {
        let page_sequence_number = self.page_sequence_number as u32;
        let page_segments = segment_table.len() as u8;
        let mut page: Vec<u8> = Vec::new();
        page.push(0x4f);
        page.push(0x67);
        page.push(0x67);
        page.push(0x53);
        page.push(0);
        page.push(header_type);
        push_le64(&mut page, granule_position);
        push_le32(&mut page, self.options.serial_number);
        push_le32(&mut page, page_sequence_number);
        push_le32(&mut page, 0);
        page.push(page_segments);
        push_all(&mut page, segment_table);
        push_all(&mut page, body);
        let ghost raw = page_raw(
            header_type,
            granule_position,
            self.options.serial_number,
            page_sequence_number,
            segment_table@,
            body@,
        );
        proof {
            assert(page@ =~= raw);
        }
        let checksum = ogg_crc(page.as_slice());
        page.set(22, checksum as u8);
        page.set(23, (checksum >> 8) as u8);
        page.set(24, (checksum >> 16) as u8);
        page.set(25, (checksum >> 24) as u8);
        proof {
            assert(page@ =~= splice(raw, 22, le32(checksum)));
        }
        let ghost w = self.written@;
        let _ = self.writer.write_all(page.as_slice());
        proof {
            lemma_placed_append(self.origin@, self.start@, w, page@);
        }
        self.written = Ghost(w + page@);
        self.bytes_written = self.bytes_written + page.len() as u64;
        self.page_sequence_number = self.page_sequence_number + 1;
        Ok(())
    }

    /// Writes one packet as a run of pages: `first_flags` on the first page,
    /// `last_flags` and the granule position on the last.
    #[verifier::rlimit(60)]
    fn write_ogg_packet(
        &mut self,
        packet: &[u8],
        complete_granule_position: u64,
        first_flags: u8,
        last_flags: u8,
    ) -> (r: Result<(), Error>)
        requires
            old(self).io_wf(),
        ensures
            final(self).io_wf(),
            r is Ok <==> old(self).page_sequence_number + packet_page_count(packet@.len()) - 1
                <= u32::MAX && old(self).writer.pos() + packet_pages_len(packet@.len()) <= usize::MAX,
            r is Ok ==> final(self).written@ == old(self).written@ + ogg_packet_pages(
                packet@,
                complete_granule_position,
                first_flags,
                last_flags,
                old(self).options.serial_number,
                old(self).page_sequence_number as int,
            ),
            r is Ok ==> final(self).page_sequence_number == old(self).page_sequence_number
                + packet_page_count(packet@.len()),
            r is Err ==> *final(self) == *old(self),
            r is Err ==> (r->Err_0 matches Error::Unsupported(_) || r->Err_0 matches Error::Io(_)),
            final(self).origin == old(self).origin,
            final(self).start == old(self).start,
            final(self).options == old(self).options,
            final(self).track == old(self).track,
            final(self).pending_packet == old(self).pending_packet,
            final(self).audio_granule_position == old(self).audio_granule_position,
            final(self).packet_count == old(self).packet_count,
            final(self).finalized == old(self).finalized,
    {
        let (np, total) = Self::packet_cost(packet.len());
        proof {
            lemma_packet_pages_len(
                packet@,
                complete_granule_position,
                first_flags,
                last_flags,
                self.options.serial_number,
                self.page_sequence_number as int,
            );
        }
        if self.page_sequence_number > u32::MAX as u64 || np - 1 > u32::MAX as u64
            - self.page_sequence_number {
            return Err(Error::Unsupported("ogg page sequence number exceeds u32"));
        }
        let pos = self.writer.position();
        if total > usize::MAX as u128 || pos > (usize::MAX as u128 - total) as u64 {
            return Err(Error::Io("ogg page exceeds addressable memory"));
        }
        let lace = build_lacing_values(packet.len())?;
        let ghost l = lace@;
        let ghost p = packet@;
        let ghost serial = self.options.serial_number;
        let ghost seq0 = self.page_sequence_number as int;
        let ghost w0 = self.written@;
        let ghost all = pages_from(l, p, 0, 0, true, complete_granule_position, first_flags, last_flags, serial, seq0);
        proof {
            lemma_lacing_sum(p.len());
            assert(l.subrange(0, l.len() as int) =~= l);
            assert(l.take(0) =~= Seq::<u8>::empty());
        }
        let nl = lace.len();
        let mut lo: usize = 0;
        let mut doff: usize = 0;
        let mut first = true;
        let ghost mut emitted: Seq<u8> = Seq::empty();
        while lo < nl
            invariant
                self.io_wf(),
                nl == l.len(),
                l == lace@,
                p == packet@,
                lace_sum(l) == p.len(),
                lo <= nl,
                doff == lace_sum(l.take(lo as int)),
                doff + lace_sum(l.subrange(lo as int, nl as int)) == p.len(),
                first == (lo == 0),
                self.written@ == w0 + emitted,
                all == emitted + pages_from(
                    l,
                    p,
                    lo as nat,
                    doff as int,
                    first,
                    complete_granule_position,
                    first_flags,
                    last_flags,
                    serial,
                    self.page_sequence_number as int,
                ),
                self.page_sequence_number + pages_needed(nl as nat, lo as nat) - 1 <= u32::MAX || lo
                    == nl,
                self.writer.pos() + pages_from(
                    l,
                    p,
                    lo as nat,
                    doff as int,
                    first,
                    complete_granule_position,
                    first_flags,
                    last_flags,
                    serial,
                    self.page_sequence_number as int,
                ).len() <= usize::MAX,
                serial == self.options.serial_number,
                self.origin == old(self).origin,
                self.start == old(self).start,
                self.options == old(self).options,
                self.track == old(self).track,
                self.pending_packet == old(self).pending_packet,
                self.audio_granule_position == old(self).audio_granule_position,
                self.packet_count == old(self).packet_count,
                self.finalized == old(self).finalized,
                self.page_sequence_number == seq0 + pages_needed(nl as nat, 0) - pages_needed(
                    nl as nat,
                    lo as nat,
                ),
            decreases nl - lo,
        {
            let cnt: usize = if nl - lo >= 255 {
                255
            } else {
                nl - lo
            };
            let ghost segs_spec = l.subrange(lo as int, (lo + cnt) as int);
            let ghost rest = l.subrange((lo + cnt) as int, nl as int);
            proof {
                assert(l.subrange(lo as int, nl as int) =~= segs_spec + rest);
                lemma_lace_sum_concat(segs_spec, rest);
                lemma_lace_sum_nonneg(segs_spec);
                lemma_lace_sum_nonneg(rest);
                assert(l.take((lo + cnt) as int) =~= l.take(lo as int) + segs_spec);
                lemma_lace_sum_concat(l.take(lo as int), segs_spec);
                lemma_pages_from_len(
                    l,
                    p,
                    lo as nat,
                    doff as int,
                    first,
                    complete_granule_position,
                    first_flags,
                    last_flags,
                    serial,
                    self.page_sequence_number as int,
                );
            }
            let mut segs: Vec<u8> = Vec::new();
            let mut dl: usize = 0;
            let mut j: usize = 0;
            while j < cnt
                invariant
                    j <= cnt,
                    cnt <= 255,
                    lo + cnt <= nl,
                    nl == lace@.len(),
                    segs@ == lace@.subrange(lo as int, (lo + j) as int),
                    dl == lace_sum(segs@),
                    dl <= 255 * j,
                decreases cnt - j,
            {
                let v = lace[lo + j];
                proof {
                    assert(lace@.subrange(lo as int, (lo + j + 1) as int) =~= segs@.push(v));
                    assert(segs@.push(v).drop_last() =~= segs@);
                }
                segs.push(v);
                dl = dl + v as usize;
                j = j + 1;
            }
            let plen = packet.len();
            proof {
                assert(segs@ =~= segs_spec);
                assert(doff + dl <= plen);
            }
            let mut body: Vec<u8> = Vec::new();
            let mut k: usize = 0;
            while k < dl
                invariant
                    k <= dl,
                    doff + dl <= plen,
                    plen == packet@.len(),
                    body@ == packet@.subrange(doff as int, (doff + k) as int),
                decreases dl - k,
            {
                body.push(packet[doff + k]);
                k = k + 1;
                proof {
                    assert(body@ =~= packet@.subrange(doff as int, (doff + k) as int));
                }
            }
            let completes = lo + cnt == nl;
            let header_type: u8 = (if first {
                first_flags
            } else {
                OGG_HEADER_TYPE_CONTINUED
            }) | (if completes {
                last_flags
            } else {
                0
            });
            let granule_position = if completes {
                complete_granule_position
            } else {
                u64::MAX
            };
            let ghost page = ogg_page(
                header_type,
                granule_position,
                serial,
                self.page_sequence_number as u32,
                segs@,
                body@,
            );
            let ghost seq_before = self.page_sequence_number as int;
            self.write_page(header_type, granule_position, segs.as_slice(), body.as_slice())?;
            proof {
                emitted = emitted + page;
                assert(self.written@ =~= w0 + emitted);
                assert(pages_needed(nl as nat, lo as nat) == 1 + pages_needed(nl as nat, (lo + cnt) as nat));
            }
            doff = doff + dl;
            lo = lo + cnt;
            first = false;
        }
        proof {
            assert(emitted =~= all);
        }
        Ok(())
    }
}

impl OggOpusMuxer {
    #[verifier::rlimit(60)]
    fn write_headers(&mut self, spec: &TrackSpec) -> (r: Result<TrackState, Error>)
        requires
            old(self).wf(),
            old(self).track is None,
            !old(self).finalized,
            old(self).written@.len() == 0,
            old(self).page_sequence_number == 0,
        ensures
            final(self).io_wf(),
            r is Ok <==> ogg_add_ok(old(self).options, spec.codec_params, old(self).writer.pos()),
            r is Ok ==> {
                &&& final(self).written@ == ogg_opus_headers(old(self).options, spec.codec_params)
                &&& final(self).page_sequence_number == packet_page_count(
                    track_head(old(self).options, spec.codec_params).len(),
                ) + packet_page_count(opus_tags(old(self).options.comments).len())
                &&& r->Ok_0.id == TrackId(0)
                &&& r->Ok_0.time_base == spec.time_base
                &&& r->Ok_0.pre_skip == chosen_pre_skip(old(self).options, spec.codec_params)
            },
            spec.codec_params.codec != CodecId::Opus ==> r is Err && r->Err_0 matches Error::InvalidArgument(_),
            r is Err ==> *final(self) == *old(self),
            final(self).origin == old(self).origin,
            final(self).start == old(self).start,
            final(self).options == old(self).options,
            final(self).track == old(self).track,
            final(self).pending_packet == old(self).pending_packet,
            final(self).audio_granule_position == old(self).audio_granule_position,
            final(self).packet_count == old(self).packet_count,
            final(self).finalized == old(self).finalized,
    {
        let params = &spec.codec_params;
        if params.codec != CodecId::Opus {
            return Err(Error::InvalidArgument("ogg opus muxer requires an opus track"));
        }
        let count = params.channels.count();
        let channel_count = count as u8;
        if channel_count == 0 {
            return Err(Error::InvalidArgument("ogg opus channel count must be greater than zero"));
        }
        let stream_mapping = extract_opus_stream_mapping(params)?;
        validate_opus_stream_mapping(channel_count, stream_mapping)?;
        let pre_skip = match self.options.pre_skip {
            Some(value) => value,
            None => default_pre_skip_from_codec_params(params)?,
        };
        let id_header = build_opus_head(
            channel_count,
            pre_skip,
            params.sample_rate,
            self.options.output_gain,
            stream_mapping,
        )?;
        let tags = build_opus_tags(&self.options.comments)?;
        let (np1, total1) = Self::packet_cost(id_header.len());
        let (np2, total2) = Self::packet_cost(tags.len());
        if np1 + np2 - 1 > u32::MAX as u64 {
            return Err(Error::Unsupported("ogg page sequence number exceeds u32"));
        }
        let pos = self.writer.position();
        if total1 + total2 > usize::MAX as u128 || pos as u128 > usize::MAX as u128 - (total1
            + total2) {
            return Err(Error::Io("ogg headers exceed addressable memory"));
        }
        proof {
            assert(opt_deref(stream_mapping) == track_mapping(spec.codec_params));
            assert(id_header@ == track_head(self.options, spec.codec_params));
        }
        let ghost w0 = self.written@;
        self.write_ogg_packet(id_header.as_slice(), 0, OGG_HEADER_TYPE_BOS, 0)?;
        let ghost w1 = self.written@;
        proof {
            lemma_packet_pages_len(id_header@, 0, OGG_HEADER_TYPE_BOS, 0, self.options.serial_number, 0);
        }
        self.write_ogg_packet(tags.as_slice(), 0, 0, 0)?;
        proof {
            assert(w0.len() == 0);
            assert(self.written@ =~= ogg_opus_headers(self.options, spec.codec_params));
        }
        Ok(TrackState { id: TrackId(0), time_base: spec.time_base, pre_skip })
    }
}

impl Muxer for OggOpusMuxer {
    closed spec fn muxer_inv(&self) -> bool {
        self.wf()
    }

    fn format_id(&self) -> (r: FormatId)
        ensures
            r == FormatId::Ogg,
    {
        FormatId::Ogg
    }

    /// Adds the single Opus track and writes the two header packets.
    fn add_track(&mut self, spec: TrackSpec) -> (r: Result<TrackId, Error>)
        ensures
            old(self).is_finalized() ==> r is Err && r->Err_0 matches Error::InvalidState(_),
            !old(self).is_finalized() && old(self).has_track() ==> r is Err && r->Err_0 matches Error::Unsupported(_),
            !old(self).is_finalized() && !old(self).has_track() && spec.codec_params.codec != CodecId::Opus
                ==> r is Err && r->Err_0 matches Error::InvalidArgument(_),
            r is Ok <==> !old(self).is_finalized() && !old(self).has_track() && ogg_add_ok(
                old(self).options(),
                spec.codec_params,
                old(self).cursor().pos(),
            ),
            r is Ok ==> {
                &&& r->Ok_0 == TrackId(0)
                &&& final(self).has_track()
                &&& !final(self).is_finalized()
                &&& final(self).written() == ogg_opus_headers(old(self).options(), spec.codec_params)
                &&& final(self).page_seq() == packet_page_count(
                    track_head(old(self).options(), spec.codec_params).len(),
                ) + packet_page_count(opus_tags(old(self).options().comments).len())
                &&& final(self).track_time_base() == spec.time_base
                &&& final(self).track_pre_skip() == chosen_pre_skip(old(self).options(), spec.codec_params)
                &&& final(self).pending() is None
                &&& final(self).granule() == 0
                &&& final(self).packet_count() == 0
                &&& final(self).options() == old(self).options()
                &&& final(self).origin() == old(self).origin()
                &&& final(self).start() == old(self).start()
            },
            r is Err ==> *final(self) == *old(self),
    {
        self.ensure_writable()?;
        if self.track.is_some() {
            return Err(Error::Unsupported("ogg opus muxer supports only one audio track"));
        }
        let state = self.write_headers(&spec)?;
        let track_id = state.id;
        self.track = Some(state);
        Ok(track_id)
    }

    /// Holds `packet` back and writes the packet held before it.
    #[verifier::rlimit(40)]
    open spec fn write_accepts(&self, track: TrackId, packet: EncodedPacket) -> bool {
        let tb = self.track_time_base();
        let dur = packet.duration->0;
        let decoded = opus_samples(dur, tb.spec_numer(), tb.spec_denom());
        let trim = opus_samples(packet.trim_end as u64, tb.spec_numer(), tb.spec_denom());
        &&& !self.is_finalized()
        &&& self.has_track()
        &&& track == TrackId(0)
        &&& packet.trim_start == 0
        &&& packet.data@.len() != 0
        &&& packet.duration is Some
        &&& opus_samples_exact(dur, tb.spec_numer(), tb.spec_denom())
        &&& 0 < decoded <= u64::MAX
        &&& opus_samples_exact(packet.trim_end as u64, tb.spec_numer(), tb.spec_denom())
        &&& trim <= decoded
        &&& self.granule() + decoded <= u64::MAX
        &&& self.packet_count() < u64::MAX
        &&& self.pending() is Some ==> {
            let prev = self.pending()->0;
            &&& prev.2 == 0
            &&& self.page_seq() + packet_page_count(prev.0.len()) - 1 <= u32::MAX
            &&& self.cursor().pos() + packet_pages_len(prev.0.len()) <= usize::MAX
        }
    }

    fn write_packet(&mut self, track: TrackId, packet: EncodedPacket) -> (r: Result<(), Error>)
        ensures
            old(self).is_finalized() ==> r is Err && r->Err_0 matches Error::InvalidState(_),
            !old(self).is_finalized() && !old(self).has_track() ==> r is Err && r->Err_0 matches Error::InvalidState(_),
            !old(self).is_finalized() && old(self).has_track() && track != TrackId(0) ==> r is Err
                && r->Err_0 matches Error::InvalidArgument(_),
            r is Ok ==> {
                let tb = old(self).track_time_base();
                let decoded = opus_samples(packet.duration->0, tb.spec_numer(), tb.spec_denom());
                let trim = opus_samples(packet.trim_end as u64, tb.spec_numer(), tb.spec_denom());
                let g = (old(self).granule() + decoded) as u64;
                &&& final(self).pending() == Some((packet.data@, g, trim as u64))
                &&& final(self).granule() == g
                &&& final(self).packet_count() == old(self).packet_count() + 1
                &&& old(self).pending() is None ==> final(self).written() == old(self).written()
                    && final(self).page_seq() == old(self).page_seq()
                &&& old(self).pending() is Some ==> {
                    let prev = old(self).pending()->0;
                    &&& final(self).written() == old(self).written() + ogg_packet_pages(
                        prev.0,
                        prev.1,
                        0,
                        0,
                        old(self).options().serial_number,
                        old(self).page_seq(),
                    )
                    &&& final(self).page_seq() == old(self).page_seq() + packet_page_count(
                        prev.0.len(),
                    )
                }
                &&& final(self).has_track()
                &&& !final(self).is_finalized()
                &&& final(self).track_time_base() == old(self).track_time_base()
                &&& final(self).track_pre_skip() == old(self).track_pre_skip()
                &&& final(self).options() == old(self).options()
                &&& final(self).origin() == old(self).origin()
                &&& final(self).start() == old(self).start()
            },
            r is Err ==> *final(self) == *old(self),
    {
        self.ensure_writable()?;
        let state = match self.track {
            Some(st) => st,
            None => {
                return Err(Error::InvalidState("cannot write packet before adding a track"));
            },
        };
        if track != state.id {
            return Err(Error::InvalidArgument("packet written to unknown ogg opus track"));
        }
        if packet.trim_start != 0 {
            return Err(
                Error::Unsupported(
                    "ogg opus muxer does not support packet trim_start; use pre_skip instead",
                ),
            );
        }
        if packet.data.len() == 0 {
            return Err(Error::InvalidArgument("ogg opus packets must not be empty"));
        }
        let duration = match packet.duration {
            Some(d) => d,
            None => {
                return Err(Error::InvalidArgument("ogg opus packets must provide a duration"));
            },
        };
        let decoded_samples = scale_to_opus_samples(duration, state.time_base)?;
        if decoded_samples == 0 {
            return Err(
                Error::InvalidArgument("ogg opus packet duration converts to zero 48 kHz samples"),
            );
        }
        let trim_end = scale_to_opus_samples(packet.trim_end as u64, state.time_base)?;
        if trim_end > decoded_samples {
            return Err(Error::InvalidArgument("ogg opus packet trim_end exceeds packet duration"));
        }
        match &self.pending_packet {
            Some(previous) => {
                if previous.trim_end != 0 {
                    return Err(
                        Error::InvalidArgument("opus trim_end may only be set on the final packet"),
                    );
                }
            },
            None => {},
        }
        if decoded_samples > u64::MAX - self.audio_granule_position {
            return Err(Error::InvalidState("ogg opus granule position overflow"));
        }
        if self.packet_count == u64::MAX {
            return Err(Error::InvalidState("packet count overflow"));
        }
        let previous = self.pending_packet.take();
        match previous {
            Some(prev) => {
                let r = self.write_ogg_packet(prev.data.as_slice(), prev.granule_position, 0, 0);
                match r {
                    Ok(()) => {},
                    Err(e) => {
                        self.pending_packet = Some(prev);
                        return Err(e);
                    },
                }
            },
            None => {},
        }
        let granule_position = self.audio_granule_position + decoded_samples;
        self.audio_granule_position = granule_position;
        self.pending_packet = Some(
            PendingAudioPacket { data: packet.data, granule_position, trim_end },
        );
        self.packet_count = self.packet_count + 1;
        Ok(())
    }

    fn flush(&mut self) -> (r: Result<(), Error>)
        ensures
            r is Ok <==> !old(self).is_finalized(),
            r is Err ==> r->Err_0 matches Error::InvalidState(_),
            *final(self) == *old(self),
    {
        self.ensure_writable()?;
        self.writer.flush()
    }

    /// Writes the held-back packet as the last one: end-of-stream flag and
    /// its granule position less its end trim.
    fn finalize(&mut self) -> (r: Result<FinalizeSummary, Error>)
        ensures
            old(self).is_finalized() ==> r is Err && r->Err_0 matches Error::InvalidState(_),
            !old(self).is_finalized() && !old(self).has_track() ==> r is Err && r->Err_0 matches Error::InvalidState(_),
            !old(self).is_finalized() && old(self).has_track() && old(self).pending() is None ==> r is Err
                && r->Err_0 matches Error::InvalidState(_),
            r is Ok <==> {
                let p = old(self).pending()->0;
                &&& !old(self).is_finalized()
                &&& old(self).has_track()
                &&& old(self).pending() is Some
                &&& p.2 <= p.1
                &&& p.1 - p.2 >= old(self).track_pre_skip()
                &&& old(self).page_seq() + packet_page_count(p.0.len()) - 1 <= u32::MAX
                &&& old(self).cursor().pos() + packet_pages_len(p.0.len()) <= usize::MAX
            },
            r is Ok ==> {
                let p = old(self).pending()->0;
                &&& final(self).written() == old(self).written() + ogg_packet_pages(
                    p.0,
                    (p.1 - p.2) as u64,
                    0,
                    OGG_HEADER_TYPE_EOS,
                    old(self).options().serial_number,
                    old(self).page_seq(),
                )
                &&& final(self).is_finalized()
                &&& final(self).pending() is None
                &&& final(self).origin() == old(self).origin()
                &&& final(self).start() == old(self).start()
                &&& r->Ok_0.bytes_written == Some(final(self).written().len() as u64)
                &&& r->Ok_0.packet_count == old(self).packet_count()
                &&& r->Ok_0.total_samples is None
            },
            r is Err ==> *final(self) == *old(self),
    {
        self.ensure_writable()?;
        let state = match self.track {
            Some(st) => st,
            None => {
                return Err(Error::InvalidState("cannot finalize ogg opus without a track"));
            },
        };
        let (granule, trim) = match &self.pending_packet {
            Some(p) => (p.granule_position, p.trim_end),
            None => {
                return Err(
                    Error::InvalidState("cannot finalize ogg opus without at least one audio packet"),
                );
            },
        };
        if trim > granule {
            return Err(Error::InvalidArgument("final opus trim exceeds cumulative audio duration"));
        }
        let final_granule_position = granule - trim;
        if final_granule_position < state.pre_skip as u64 {
            return Err(
                Error::InvalidArgument("final ogg opus granule position is smaller than pre_skip"),
            );
        }
        let pending = self.pending_packet.take();
        match pending {
            Some(p) => {
                let r = self.write_ogg_packet(
                    p.data.as_slice(),
                    final_granule_position,
                    0,
                    OGG_HEADER_TYPE_EOS,
                );
                match r {
                    Ok(()) => {},
                    Err(e) => {
                        self.pending_packet = Some(p);
                        return Err(e);
                    },
                }
            },
            None => {},
        }
        self.finalized = true;
        Ok(
            FinalizeSummary {
                bytes_written: Some(self.bytes_written),
                packet_count: self.packet_count,
                total_samples: None,
            },
        )
    }
}

} // verus!
