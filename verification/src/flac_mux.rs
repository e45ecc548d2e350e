//! The native FLAC muxer: `fLaC`, the metadata blocks, then the frames;
//! STREAMINFO and SEEKTABLE are completed when the file is finalized.
use vstd::prelude::*;

use crate::audio::popcount;
use crate::bits::push_all;
use crate::codecs::{CodecId, CodecParameters, CodecSpecific, FlacStreamInfo};
use crate::error::Error;
use crate::flac_meta::{
    block_header, build_padding_block, build_seektable_block, build_stream_info_block,
    build_vorbis_comment_block, lemma_seek_points_bytes_len, placeholder_point, placeholders,
    seek_point_bytes, seek_points_bytes, seektable_length, stream_info_bytes, vorbis_block_ok,
    SeekPoint,
};
use crate::formats::{FinalizeSummary, FormatId, Muxer, TrackId, TrackSpec};
use crate::io::{lemma_placed_append, lemma_placed_splice, overwrite, placed, splice, ByteCursor};
use crate::packet::EncodedPacket;
use crate::vorbis::{comments_block, VorbisComments};

verus! {

pub open spec fn flac_marker() -> Seq<u8> {
    seq![0x66u8, 0x4cu8, 0x61u8, 0x43u8]
}

/// Sixteen zero bytes: the MD5 signature left unset.
pub open spec fn no_md5() -> Seq<u8> {
    Seq::new(16, |i: int| 0u8)
}

/// Options of the FLAC muxer.
#[derive(Clone, Debug, PartialEq, Eq)]
pub struct FlacMuxerOptions {
    /// The VORBIS_COMMENT block.
    pub comments: VorbisComments,
    /// The size of the PADDING block; none when zero.
    pub padding: u32,
    /// The number of SEEKTABLE points; no table when zero.
    pub max_seek_points: u32,
}

impl Default for FlacMuxerOptions {
    fn default() -> (r: Self)
        ensures
            r.comments.spec_vendor() == "dissonia"@,
            r.comments.spec_entries().len() == 0,
            r.padding == 8192,
            r.max_seek_points == 100,
    {
        FlacMuxerOptions {
            comments: VorbisComments::new("dissonia"),
            padding: 8192,
            max_seek_points: 100,
        }
    }
}

/// The STREAMINFO facts a track carries, or `None` for a track that is not FLAC.
pub open spec fn flac_info(params: CodecParameters) -> Option<FlacStreamInfo> {
    match params.codec_specific {
        Some(CodecSpecific::Flac(info)) => Some(info),
        _ => None,
    }
}

/// Every check of `add_track` on the track itself passes.
pub open spec fn flac_track_valid(params: CodecParameters) -> bool {
    let ch = popcount(params.channels.0);
    &&& params.codec == CodecId::Flac
    &&& flac_info(params) is Some
    &&& 1 <= ch <= 8
    &&& 1 <= params.sample_rate <= 655_350
    &&& 4 <= flac_info(params)->0.bits_per_sample <= 32
}

/// The header written when the track is added: the marker, a STREAMINFO with
/// the sizes and counts still zero, a placeholder SEEKTABLE, the comments and
/// the padding.
pub open spec fn flac_header(opts: FlacMuxerOptions, params: CodecParameters) -> Seq<u8> {
    let info = flac_info(params)->0;
    let n = opts.max_seek_points;
    let body = comments_block(opts.comments.spec_vendor(), opts.comments.spec_entries());
    flac_marker() + block_header(false, 0, 34) + stream_info_bytes(
        info.min_block_size,
        info.max_block_size,
        0,
        0,
        params.sample_rate,
        popcount(params.channels.0) as u8,
        info.bits_per_sample,
        0,
        no_md5(),
    ) + (if n > 0 {
        block_header(false, 3, seektable_length(n)) + seek_points_bytes(placeholders(n as nat))
    } else {
        Seq::empty()
    }) + block_header(opts.padding == 0, 4, body.len() as u32) + body + (if opts.padding > 0 {
        block_header(true, 1, opts.padding) + Seq::new(opts.padding as nat, |i: int| 0u8)
    } else {
        Seq::empty()
    })
}

/// What the muxer remembers of each frame, for the seek table.
#[derive(Clone, Copy, Debug, PartialEq, Eq)]
pub struct FrameRecord {
    pub sample_number: u64,
    pub stream_offset: u64,
    pub frame_samples: u16,
}

pub open spec fn record_point(r: FrameRecord) -> SeekPoint {
    SeekPoint {
        sample_number: r.sample_number,
        stream_offset: r.stream_offset,
        frame_samples: r.frame_samples,
    }
}

/// The first `i` of `n` evenly spaced records, a record dropped when it starts
/// at the same sample as the point before it.
pub open spec fn thinned(recs: Seq<FrameRecord>, n: nat, i: nat) -> Seq<SeekPoint>
    decreases i,
{
    if i == 0 {
        Seq::empty()
    } else {
        let prev = thinned(recs, n, (i - 1) as nat);
        let rec = recs[((i - 1) * recs.len() / (n as int)) as int];
        if prev.len() > 0 && prev.last().sample_number == rec.sample_number {
            prev
        } else {
            prev.push(record_point(rec))
        }
    }
}

pub proof fn lemma_thinned_len(recs: Seq<FrameRecord>, n: nat, i: nat)
    ensures
        thinned(recs, n, i).len() <= i,
    decreases i,
{
    if i > 0 {
        lemma_thinned_len(recs, n, (i - 1) as nat);
    }
}

/// The points chosen from the records: all of them when they fit, else `n`
/// evenly spaced ones.
pub open spec fn chosen_points(recs: Seq<FrameRecord>, n: nat) -> Seq<SeekPoint> {
    if recs.len() == 0 || n == 0 {
        Seq::empty()
    } else if recs.len() <= n {
        Seq::new(recs.len(), |i: int| record_point(recs[i]))
    } else {
        thinned(recs, n, n)
    }
}

/// Records in the order the muxer makes them: sample numbers never go back
/// and stream offsets strictly grow.
pub open spec fn records_in_order(recs: Seq<FrameRecord>) -> bool {
    forall|i: int, j: int|
        0 <= i < j < recs.len() ==> recs[i].sample_number <= recs[j].sample_number
            && recs[i].stream_offset < recs[j].stream_offset
}

proof fn lemma_thinned_order(recs: Seq<FrameRecord>, n: nat, i: nat)
    requires
        records_in_order(recs),
        0 < n < recs.len(),
        i <= n,
    ensures
        ({
            let t = thinned(recs, n, i);
            &&& forall|a: int, b: int|
                0 <= a < b < t.len() ==> t[a].sample_number < t[b].sample_number
            &&& i > 0 ==> t.len() > 0 && t.last().sample_number == recs[((i - 1) * recs.len() / (n as int)) as int].sample_number
            &&& i > 0 ==> t[0] == record_point(recs[0])
        }),
    decreases i,
{
    if i > 0 {
        let m = (i - 1) as nat;
        lemma_thinned_order(recs, n, m);
        let len = recs.len() as int;
        let k = m * len / (n as int);
        assert(0 <= m * len) by (nonlinear_arith) requires m >= 0, len > 0;
        assert(m * len < n * len) by (nonlinear_arith) requires m < n, len > 0;
        assert(k < len) by {
            vstd::arithmetic::div_mod::lemma_div_by_multiple_is_strongly_ordered(m * len, n * len, len, n as int);
            vstd::arithmetic::div_mod::lemma_div_multiples_vanish(len, n as int);
            assert(n * len == len * n) by (nonlinear_arith);
        }
        assert(0 <= k) by {
            vstd::arithmetic::div_mod::lemma_div_pos_is_pos(m * len, n as int);
        }
        if m > 0 {
            let j = (m - 1) * len / (n as int);
            assert((m - 1) * len <= m * len) by (nonlinear_arith) requires m >= 1, len > 0;
            vstd::arithmetic::div_mod::lemma_div_is_ordered((m - 1) * len, m * len, n as int);
            assert(recs[j].sample_number <= recs[k].sample_number) by {
                if j < k {
                } else {
                    assert(j == k);
                }
            }
        } else {
            assert(k == 0);
        }
        let prev = thinned(recs, n, m);
        let rec = recs[k];
        let t = thinned(recs, n, i);
        if prev.len() > 0 && prev.last().sample_number == rec.sample_number {
            assert(t == prev);
        } else {
            assert(t == prev.push(record_point(rec)));
            if m > 0 {
                assert(prev.last().sample_number < rec.sample_number);
                assert forall|a: int, b: int| 0 <= a < b < t.len() implies t[a].sample_number < t[b].sample_number by {
                    if b == prev.len() {
                        if a < prev.len() - 1 {
                            assert(prev[a].sample_number < prev[prev.len() - 1].sample_number);
                        }
                    } else {
                        assert(t[a] == prev[a] && t[b] == prev[b]);
                    }
                }
                assert(t[0] == prev[0]);
            } else {
                assert(prev.len() == 0);
                assert(t.len() == 1);
            }
        }
    }
}

/// The seek points keep the frames' order: the table never goes back in time
/// and its points are real frames. When every frame fits there is one point
/// per frame, the first at the first frame and the points running strictly
/// forward through the stream; when frames must be thinned, the sample
/// numbers strictly ascend and the first point is still the first frame.
pub proof fn lemma_seek_points_in_order(recs: Seq<FrameRecord>, n: nat)
    requires
        records_in_order(recs),
    ensures
        ({
            let c = chosen_points(recs, n);
            &&& forall|a: int, b: int| 0 <= a < b < c.len() ==> c[a].sample_number <= c[b].sample_number
            &&& recs.len() > 0 && n > 0 ==> c.len() > 0 && c[0] == record_point(recs[0])
            &&& 0 < recs.len() <= n ==> c.len() == recs.len() && forall|a: int, b: int|
                0 <= a < b < c.len() ==> c[a].stream_offset < c[b].stream_offset
            &&& recs.len() > n ==> forall|a: int, b: int|
                0 <= a < b < c.len() ==> c[a].sample_number < c[b].sample_number
        }),
{
    if recs.len() > n && n > 0 {
        lemma_thinned_order(recs, n, n);
    }
}

/// The `n` points of the final seek table: the chosen ones, then placeholders.
pub open spec fn selected_points(recs: Seq<FrameRecord>, n: nat) -> Seq<SeekPoint> {
    let c = chosen_points(recs, n);
    c + placeholders((n - c.len()) as nat)
}

pub proof fn lemma_selected_points_len(recs: Seq<FrameRecord>, n: nat)
    ensures
        selected_points(recs, n).len() == n,
{
    if recs.len() > n && n > 0 {
        lemma_thinned_len(recs, n, n);
    }
}

/// The STREAMINFO body written when the file is finalized.
pub open spec fn final_stream_info(
    info: FlacStreamInfo,
    params: CodecParameters,
    min_frame: u32,
    max_frame: u32,
    total: u64,
) -> Seq<u8> {
    stream_info_bytes(
        info.min_block_size,
        info.max_block_size,
        if min_frame == u32::MAX {
            0
        } else {
            min_frame
        },
        max_frame,
        params.sample_rate,
        popcount(params.channels.0) as u8,
        info.bits_per_sample,
        total,
        no_md5(),
    )
}

/// A FLAC frame starts with the sync code `0xFFF8` (the low two bits of the
/// second byte are the blocking strategy and a reserved bit).
pub open spec fn has_frame_sync(d: Seq<u8>) -> bool {
    d.len() >= 2 && d[0] == 0xff && d[1] & 0xfc == 0xf8
}

/// Builds a `FlacMuxer`.
#[derive(Debug)]
pub struct FlacMuxerBuilder {
    writer: ByteCursor,
    options: FlacMuxerOptions,
}

impl FlacMuxerBuilder {
    pub closed spec fn spec_writer(&self) -> ByteCursor {
        self.writer
    }

    pub closed spec fn spec_options(&self) -> FlacMuxerOptions {
        self.options
    }

    pub fn new(writer: ByteCursor) -> (r: Self)
        ensures
            r.spec_writer() == writer,
            r.spec_options().comments.spec_vendor() == "dissonia"@,
            r.spec_options().comments.spec_entries().len() == 0,
            r.spec_options().padding == 8192,
            r.spec_options().max_seek_points == 100,
    {
        FlacMuxerBuilder { writer, options: FlacMuxerOptions::default() }
    }

    pub fn options(self, options: FlacMuxerOptions) -> (r: Self)
        ensures
            r.spec_writer() == self.spec_writer(),
            r.spec_options() == options,
    {
        let mut b = self;
        b.options = options;
        b
    }

    pub fn vendor_string(self, vendor: &str) -> (r: Self)
        ensures
            r.spec_writer() == self.spec_writer(),
            r.spec_options().comments.spec_vendor() == vendor@,
            r.spec_options().comments.spec_entries() == self.spec_options().comments.spec_entries(),
            r.spec_options().padding == self.spec_options().padding,
            r.spec_options().max_seek_points == self.spec_options().max_seek_points,
    {
        let mut b = self;
        b.options.comments.set_vendor(vendor);
        b
    }

    pub fn comment(self, field: &str, value: &str) -> (r: Self)
        ensures
            r.spec_writer() == self.spec_writer(),
            r.spec_options().comments.spec_vendor() == self.spec_options().comments.spec_vendor(),
            r.spec_options().comments.spec_entries() == self.spec_options().comments.spec_entries().push(
                (field@, value@),
            ),
            r.spec_options().padding == self.spec_options().padding,
            r.spec_options().max_seek_points == self.spec_options().max_seek_points,
    {
        let mut b = self;
        b.options.comments.add(field, value);
        b
    }

    pub fn comments(self, comments: VorbisComments) -> (r: Self)
        ensures
            r.spec_writer() == self.spec_writer(),
            r.spec_options().comments == comments,
            r.spec_options().padding == self.spec_options().padding,
            r.spec_options().max_seek_points == self.spec_options().max_seek_points,
    {
        let mut b = self;
        b.options.comments = comments;
        b
    }

    pub fn padding(self, bytes: u32) -> (r: Self)
        ensures
            r.spec_writer() == self.spec_writer(),
            r.spec_options().comments == self.spec_options().comments,
            r.spec_options().padding == bytes,
            r.spec_options().max_seek_points == self.spec_options().max_seek_points,
    {
        let mut b = self;
        b.options.padding = bytes;
        b
    }

    pub fn max_seek_points(self, count: u32) -> (r: Self)
        ensures
            r.spec_writer() == self.spec_writer(),
            r.spec_options().comments == self.spec_options().comments,
            r.spec_options().padding == self.spec_options().padding,
            r.spec_options().max_seek_points == count,
    {
        let mut b = self;
        b.options.max_seek_points = count;
        b
    }

    pub fn build(self) -> (r: FlacMuxer)
        ensures
            r.muxer_inv(),
            r.origin() == self.spec_writer().bytes(),
            r.start() == self.spec_writer().pos(),
            r.written().len() == 0,
            r.options() == self.spec_options(),
            !r.has_track(),
            !r.is_finalized(),
            r.records().len() == 0,
            r.total_samples() == 0,
            r.packet_count() == 0,
    {
        let ghost origin = self.writer.bytes();
        let ghost start = self.writer.pos();
        proof {
            self.writer.lemma_pos_nonneg();
        }
        FlacMuxer {
            writer: self.writer,
            options: self.options,
            track: None,
            stream_info_offset: 0,
            seektable_payload_offset: 0,
            seektable_num_points: 0,
            audio_start_offset: 0,
            frame_records: Vec::new(),
            min_frame_size: u32::MAX,
            max_frame_size: 0,
            total_samples: 0,
            bytes_written: 0,
            packet_count: 0,
            finalized: false,
            origin: Ghost(origin),
            start: Ghost(start),
            written: Ghost(Seq::empty()),
            params: Ghost(arbitrary()),
        }
    }
}

#[derive(Clone, Copy, Debug)]
struct TrackState {
    id: TrackId,
    sample_rate: u32,
    channels: u8,
    bits_per_sample: u8,
    min_block_size: u16,
    max_block_size: u16,
}

/// The native FLAC muxer.
///
/// As ghost state it keeps the cursor's bytes and position when it was built,
/// everything written since, and the parameters of the track.
pub struct FlacMuxer {
    writer: ByteCursor,
    options: FlacMuxerOptions,
    track: Option<TrackState>,
    stream_info_offset: u64,
    seektable_payload_offset: u64,
    seektable_num_points: u32,
    audio_start_offset: u64,
    frame_records: Vec<FrameRecord>,
    min_frame_size: u32,
    max_frame_size: u32,
    total_samples: u64,
    bytes_written: u64,
    packet_count: u64,
    finalized: bool,
    origin: Ghost<Seq<u8>>,
    start: Ghost<int>,
    written: Ghost<Seq<u8>>,
    params: Ghost<CodecParameters>,
}

/// Whether `add_track` succeeds on a fresh, unfinalized muxer with `opts`
/// whose cursor is at `pos`.
pub open spec fn flac_add_ok(opts: FlacMuxerOptions, params: CodecParameters, pos: int) -> bool {
    &&& flac_track_valid(params)
    &&& vorbis_block_ok(opts.comments)
    &&& pos + flac_header(opts, params).len() <= usize::MAX
}

impl FlacMuxer {
    pub closed spec fn origin(&self) -> Seq<u8> {
        self.origin@
    }

    pub closed spec fn start(&self) -> int {
        self.start@
    }

    /// Everything written since the muxer was built.
    pub closed spec fn written(&self) -> Seq<u8> {
        self.written@
    }

    pub closed spec fn options(&self) -> FlacMuxerOptions {
        self.options
    }

    /// The parameters of the track, once there is one.
    pub closed spec fn track_params(&self) -> CodecParameters {
        self.params@
    }

    pub closed spec fn has_track(&self) -> bool {
        self.track is Some
    }

    pub closed spec fn is_finalized(&self) -> bool {
        self.finalized
    }

    /// One record per frame written.
    pub closed spec fn records(&self) -> Seq<FrameRecord> {
        self.frame_records@
    }

    pub closed spec fn total_samples(&self) -> u64 {
        self.total_samples
    }

    pub closed spec fn min_frame_size(&self) -> u32 {
        self.min_frame_size
    }

    pub closed spec fn max_frame_size(&self) -> u32 {
        self.max_frame_size
    }

    pub closed spec fn packet_count(&self) -> u64 {
        self.packet_count
    }

    /// The length of the header, where the first frame starts.
    pub closed spec fn audio_start(&self) -> int {
        self.audio_start_offset as int
    }

    pub closed spec fn cursor(&self) -> ByteCursor {
        self.writer
    }

    /// The frames are recorded in stream order: sample numbers never go back,
    /// stream offsets strictly grow, and the first frame starts at sample 0
    /// right after the header.
    pub proof fn lemma_records_in_stream_order(&self)
        requires
            self.muxer_inv(),
        ensures
            records_in_order(self.records()),
            self.records().len() > 0 ==> self.records()[0].sample_number == 0
                && self.records()[0].stream_offset == 0,
    {
    }

    pub closed spec fn wf(&self) -> bool {
        let n = self.options.max_seek_points;
        &&& self.start@ >= 0
        &&& !self.finalized ==> self.writer.bytes() == placed(
            self.origin@,
            self.start@,
            self.written@,
        ) && self.writer.pos() == self.start@ + self.written@.len()
        &&& self.finalized && self.start@ == 0 ==> self.writer.bytes() == placed(
            self.origin@,
            0,
            self.written@,
        )
        &&& self.bytes_written == self.written@.len()
        &&& records_in_order(self.frame_records@)
        &&& self.frame_records@.len() > 0 ==> self.frame_records@[0].sample_number == 0
            && self.frame_records@[0].stream_offset == 0
        &&& !self.finalized && self.track is Some ==> {
            &&& forall|k: int|
                0 <= k < self.frame_records@.len() ==> #[trigger] self.frame_records@[k].sample_number
                    <= self.total_samples && self.frame_records@[k].stream_offset < self.bytes_written
                    - self.audio_start_offset
            &&& self.frame_records@.len() == 0 ==> self.total_samples == 0 && self.bytes_written
                == self.audio_start_offset
        }
        &&& self.track is None ==> {
            &&& self.written@.len() == 0
            &&& self.frame_records@.len() == 0
            &&& self.total_samples == 0
            &&& self.min_frame_size == u32::MAX
            &&& self.max_frame_size == 0
            &&& self.packet_count == 0
            &&& self.seektable_num_points == 0
            &&& !self.finalized
        }
        &&& self.track is Some ==> {
            let st = self.track->0;
            let info = flac_info(self.params@)->0;
            &&& flac_track_valid(self.params@)
            &&& st.id == TrackId(0)
            &&& st.sample_rate == self.params@.sample_rate
            &&& st.channels == popcount(self.params@.channels.0)
            &&& st.bits_per_sample == info.bits_per_sample
            &&& st.min_block_size == info.min_block_size
            &&& st.max_block_size == info.max_block_size
            &&& self.audio_start_offset == flac_header(self.options, self.params@).len()
            &&& self.written@.len() >= self.audio_start_offset
            &&& self.stream_info_offset == 4
            &&& self.seektable_num_points == n
            &&& n > 0 ==> self.seektable_payload_offset == 46 && 46 + 18 * n <= self.written@.len()
            &&& !self.finalized ==> self.written@.subrange(0, self.audio_start_offset as int)
                == flac_header(self.options, self.params@)
        }
    }

    pub fn new(writer: ByteCursor) -> (r: Self)
        ensures
            r.muxer_inv(),
            r.origin() == writer.bytes(),
            r.start() == writer.pos(),
            r.written().len() == 0,
            r.options().comments.spec_vendor() == "dissonia"@,
            r.options().comments.spec_entries().len() == 0,
            r.options().padding == 8192,
            r.options().max_seek_points == 100,
            !r.has_track(),
            !r.is_finalized(),
    {
        Self::builder(writer).build()
    }

    pub fn builder(writer: ByteCursor) -> (r: FlacMuxerBuilder)
        ensures
            r.spec_writer() == writer,
            r.spec_options().comments.spec_vendor() == "dissonia"@,
            r.spec_options().comments.spec_entries().len() == 0,
            r.spec_options().padding == 8192,
            r.spec_options().max_seek_points == 100,
    {
        FlacMuxerBuilder::new(writer)
    }

    /// Gives back the cursor.
    pub fn into_inner(self) -> (r: ByteCursor)
        ensures
            r == self.cursor(),
    {
        self.writer
    }

    fn ensure_writable(&self) -> (r: Result<(), Error>)
        ensures
            r is Ok <==> !self.finalized,
            r is Err ==> r->Err_0 matches Error::InvalidState(_),
    {
        if self.finalized {
            return Err(Error::InvalidState("muxer already finalized"));
        }
        Ok(())
    }

    /// Writes `buf` and counts it.
    fn write_all(&mut self, buf: &[u8]) -> (r: Result<(), Error>)
        requires
            !old(self).finalized,
            old(self).writer.bytes() == placed(old(self).origin@, old(self).start@, old(self).written@),
            old(self).writer.pos() == old(self).start@ + old(self).written@.len(),
            old(self).bytes_written == old(self).written@.len(),
            old(self).start@ >= 0,
            buf@.len() > 0,
            old(self).writer.pos() + buf@.len() <= usize::MAX,
        ensures
            r is Ok,
            final(self).written@ == old(self).written@ + buf@,
            final(self).writer.bytes() == placed(final(self).origin@, final(self).start@, final(self).written@),
            final(self).writer.pos() == final(self).start@ + final(self).written@.len(),
            final(self).bytes_written == final(self).written@.len(),
            final(self).origin@ == old(self).origin@,
            final(self).start@ == old(self).start@,
            final(self).options == old(self).options,
            final(self).track == old(self).track,
            final(self).stream_info_offset == old(self).stream_info_offset,
            final(self).seektable_payload_offset == old(self).seektable_payload_offset,
            final(self).seektable_num_points == old(self).seektable_num_points,
            final(self).audio_start_offset == old(self).audio_start_offset,
            final(self).frame_records == old(self).frame_records,
            final(self).min_frame_size == old(self).min_frame_size,
            final(self).max_frame_size == old(self).max_frame_size,
            final(self).total_samples == old(self).total_samples,
            final(self).packet_count == old(self).packet_count,
            final(self).finalized == old(self).finalized,
            final(self).params == old(self).params,
    {
        let ghost w = self.written@;
        self.writer.write_all(buf)?;
        proof {
            lemma_placed_append(self.origin@, self.start@, w, buf@);
        }
        self.written = Ghost(w + buf@);
        self.bytes_written = self.bytes_written + buf.len() as u64;
        Ok(())
    }
}

impl FlacMuxer {
    #[verifier::rlimit(60)]
    fn write_header(&mut self, spec: &TrackSpec) -> (r: Result<TrackState, Error>)
        requires
            old(self).wf(),
            old(self).track is None,
            !old(self).finalized,
        ensures
            r is Err ==> *final(self) == *old(self),
            r is Ok <==> flac_add_ok(old(self).options, spec.codec_params, old(self).writer.pos()),
            spec.codec_params.codec != CodecId::Flac ==> r is Err && r->Err_0 matches Error::InvalidArgument(_),
            r is Err ==> (r->Err_0 matches Error::InvalidArgument(_) || r->Err_0 matches Error::Unsupported(_)
                || r->Err_0 matches Error::Io(_)),
            r is Ok ==> {
                let st = r->Ok_0;
                let info = flac_info(spec.codec_params)->0;
                let n = old(self).options.max_seek_points;
                &&& final(self).written@ == flac_header(old(self).options, spec.codec_params)
                &&& final(self).writer.bytes() == placed(final(self).origin@, final(self).start@, final(self).written@)
                &&& final(self).writer.pos() == final(self).start@ + final(self).written@.len()
                &&& final(self).bytes_written == final(self).written@.len()
                &&& final(self).params@ == spec.codec_params
                &&& final(self).origin@ == old(self).origin@
                &&& final(self).start@ == old(self).start@
                &&& final(self).options == old(self).options
                &&& final(self).track is None
                &&& final(self).stream_info_offset == 4
                &&& final(self).seektable_num_points == n
                &&& n > 0 ==> final(self).seektable_payload_offset == 46
                &&& final(self).audio_start_offset == final(self).written@.len()
                &&& final(self).frame_records == old(self).frame_records
                &&& final(self).min_frame_size == old(self).min_frame_size
                &&& final(self).max_frame_size == old(self).max_frame_size
                &&& final(self).total_samples == old(self).total_samples
                &&& final(self).packet_count == old(self).packet_count
                &&& final(self).finalized == old(self).finalized
                &&& st.id == TrackId(0)
                &&& st.sample_rate == spec.codec_params.sample_rate
                &&& st.channels == popcount(spec.codec_params.channels.0)
                &&& st.bits_per_sample == info.bits_per_sample
                &&& st.min_block_size == info.min_block_size
                &&& st.max_block_size == info.max_block_size
            },
    {
        let params = &spec.codec_params;
        if params.codec != CodecId::Flac {
            return Err(Error::InvalidArgument("flac muxer requires a flac track"));
        }
        let info = match &params.codec_specific {
            Some(CodecSpecific::Flac(info)) => info,
            Some(_) => {
                return Err(
                    Error::InvalidArgument("flac muxer received non-flac codec-specific parameters"),
                );
            },
            None => {
                return Err(
                    Error::InvalidArgument("flac muxer requires FlacStreamInfo in codec parameters"),
                );
            },
        };
        let ch_count = params.channels.count();
        if ch_count == 0 || ch_count > 8 {
            return Err(Error::InvalidArgument("flac supports 1-8 channels"));
        }
        let channels = ch_count as u8;
        let sample_rate = params.sample_rate;
        if sample_rate == 0 || sample_rate > 655_350 {
            return Err(Error::InvalidArgument("flac sample rate must be 1-655350"));
        }
        let bits_per_sample = info.bits_per_sample;
        if bits_per_sample < 4 || bits_per_sample > 32 {
            return Err(Error::InvalidArgument("flac bits_per_sample must be 4-32"));
        }
        let n = self.options.max_seek_points;
        let padding = self.options.padding;
        let comment_block = build_vorbis_comment_block(padding == 0, &self.options.comments)?;
        let seektable_len: u64 = if n > 0 {
            4 + 18 * n as u64
        } else {
            0
        };
        let padding_len: u64 = if padding > 0 {
            4 + padding as u64
        } else {
            0
        };
        let total: u64 = 42 + seektable_len + comment_block.len() as u64 + padding_len;
        let p = self.writer.position();
        let ghost hdr = flac_header(self.options, spec.codec_params);
        proof {
            lemma_seek_points_bytes_len(placeholders(n as nat));
            assert(hdr.len() == total);
        }
        if p > usize::MAX as u64 || total > usize::MAX as u64 - p {
            return Err(Error::Io("flac header exceeds addressable memory"));
        }
        let ghost w0 = self.written@;
        let marker: [u8; 4] = [0x66u8, 0x4cu8, 0x61u8, 0x43u8];
        self.write_all(&marker)?;
        self.stream_info_offset = self.bytes_written;
        let zero_md5: [u8; 16] = [0u8; 16];
        proof {
            assert(zero_md5@ =~= no_md5());
        }
        let si = build_stream_info_block(
            false,
            info.min_block_size,
            info.max_block_size,
            0,
            0,
            sample_rate,
            channels,
            bits_per_sample,
            0,
            &zero_md5,
        );
        self.write_all(&si)?;
        let ghost w_si = self.written@;
        if n > 0 {
            self.seektable_payload_offset = self.bytes_written + 4;
            self.seektable_num_points = n;
            let st_block = build_seektable_block(false, n);
            self.write_all(st_block.as_slice())?;
        }
        let ghost w_st = self.written@;
        self.write_all(comment_block.as_slice())?;
        let ghost w_cb = self.written@;
        if padding > 0 {
            let pb = build_padding_block(true, padding);
            self.write_all(pb.as_slice())?;
        }
        self.audio_start_offset = self.bytes_written;
        proof {
            assert(w0.len() == 0);
            assert(marker@ =~= flac_marker());
            assert(self.written@ =~= hdr);
            assert(self.writer.bytes() == placed(self.origin@, self.start@, self.written@));
            assert(self.stream_info_offset == 4);
            assert(n > 0 ==> self.seektable_payload_offset == 46);
            assert(self.audio_start_offset == self.written@.len());
            assert(channels == popcount(spec.codec_params.channels.0));
        }
        self.params = Ghost(spec.codec_params);
        Ok(
            TrackState {
                id: TrackId(0),
                sample_rate,
                channels,
                bits_per_sample,
                min_block_size: info.min_block_size,
                max_block_size: info.max_block_size,
            },
        )
    }

    /// The seek points of the final table, chosen from the frame records.
    fn select_seek_points(&self) -> (r: Vec<SeekPoint>)
        requires
            self.seektable_num_points > 0,
        ensures
            r@ == selected_points(self.frame_records@, self.seektable_num_points as nat),
    {
        let num_points = self.seektable_num_points as usize;
        let num_records = self.frame_records.len();
        let ghost recs = self.frame_records@;
        let ghost n = num_points as nat;
        let mut selected: Vec<SeekPoint> = Vec::new();
        if num_records > 0 && num_points > 0 {
            if num_records <= num_points {
                let mut k: usize = 0;
                while k < num_records
                    invariant
                        k <= num_records,
                        num_records == recs.len(),
                        recs == self.frame_records@,
                        selected@ == Seq::new(k as nat, |i: int| record_point(recs[i])),
                    decreases num_records - k,
                {
                    let rec = self.frame_records[k];
                    selected.push(
                        SeekPoint {
                            sample_number: rec.sample_number,
                            stream_offset: rec.stream_offset,
                            frame_samples: rec.frame_samples,
                        },
                    );
                    k = k + 1;
                    proof {
                        assert(selected@ =~= Seq::new(k as nat, |i: int| record_point(recs[i])));
                    }
                }
            } else {
                let mut i: usize = 0;
                while i < num_points
                    invariant
                        i <= num_points,
                        num_points == n,
                        num_points <= u32::MAX,
                        num_records == recs.len(),
                        num_records > num_points,
                        recs == self.frame_records@,
                        selected@ == thinned(recs, n, i as nat),
                    decreases num_points - i,
                {
                    proof {
                        let ii = i as int;
                        let rr = num_records as int;
                        let nn = num_points as int;
                        assert(ii * rr < nn * rr) by (nonlinear_arith)
                            requires
                                ii < nn,
                                rr > 0,
                        ;
                        vstd::arithmetic::div_mod::lemma_multiply_divide_lt(ii * rr, nn, rr);
                        assert(ii * rr >= 0) by (nonlinear_arith)
                            requires
                                ii >= 0,
                                rr >= 0,
                        ;
                        assert(ii * rr <= 0xffff_ffff * 0xffff_ffff_ffff_ffff) by (nonlinear_arith)
                            requires
                                0 <= ii <= 0xffff_ffff,
                                0 <= rr <= 0xffff_ffff_ffff_ffff,
                        ;
                    }
                    let idx = ((i as u128) * (num_records as u128) / (num_points as u128)) as usize;
                    let rec = self.frame_records[idx];
                    let len = selected.len();
                    let skip = len > 0 && selected[len - 1].sample_number == rec.sample_number;
                    if !skip {
                        selected.push(
                            SeekPoint {
                                sample_number: rec.sample_number,
                                stream_offset: rec.stream_offset,
                                frame_samples: rec.frame_samples,
                            },
                        );
                    }
                    i = i + 1;
                }
            }
        }
        let ghost chosen = selected@;
        proof {
            if num_records > num_points {
                lemma_thinned_len(recs, n, n);
            }
            assert(chosen == chosen_points(recs, n));
        }
        let placeholder = SeekPoint::placeholder();
        while selected.len() < num_points
            invariant
                chosen.len() <= num_points,
                selected@.len() <= num_points,
                selected@ == chosen + placeholders((selected@.len() - chosen.len()) as nat),
                placeholder == placeholder_point(),
            decreases num_points - selected@.len(),
        {
            selected.push(placeholder);
            proof {
                assert(selected@ =~= chosen + placeholders((selected@.len() - chosen.len()) as nat));
            }
        }
        selected
    }
}

impl FlacMuxer {
    /// Writes the final STREAMINFO body over the placeholder one.
    fn patch_stream_info(&mut self)
        requires
            old(self).wf(),
            old(self).track is Some,
            !old(self).finalized,
        ensures
            ({
                let info = flac_info(old(self).params@)->0;
                let si = final_stream_info(
                    info,
                    old(self).params@,
                    old(self).min_frame_size,
                    old(self).max_frame_size,
                    old(self).total_samples,
                );
                &&& final(self).writer.bytes() == overwrite(old(self).writer.bytes(), 8, si)
                &&& final(self).writer.pos() == 42
                &&& si.len() == 34
            }),
            final(self).written == old(self).written,
            final(self).bytes_written == old(self).bytes_written,
            final(self).origin == old(self).origin,
            final(self).start == old(self).start,
            final(self).options == old(self).options,
            final(self).track == old(self).track,
            final(self).stream_info_offset == old(self).stream_info_offset,
            final(self).seektable_payload_offset == old(self).seektable_payload_offset,
            final(self).seektable_num_points == old(self).seektable_num_points,
            final(self).audio_start_offset == old(self).audio_start_offset,
            final(self).frame_records == old(self).frame_records,
            final(self).min_frame_size == old(self).min_frame_size,
            final(self).max_frame_size == old(self).max_frame_size,
            final(self).total_samples == old(self).total_samples,
            final(self).packet_count == old(self).packet_count,
            final(self).finalized == old(self).finalized,
            final(self).params == old(self).params,
    {
        let state = match self.track {
            Some(st) => st,
            None => {
                return ;
            },
        };
        let min_frame = if self.min_frame_size == u32::MAX {
            0
        } else {
            self.min_frame_size
        };
        let zero_md5: [u8; 16] = [0u8; 16];
        proof {
            assert(zero_md5@ =~= no_md5());
        }
        let body = crate::flac_meta::encode_stream_info(
            state.min_block_size,
            state.max_block_size,
            min_frame,
            self.max_frame_size,
            state.sample_rate,
            state.channels,
            state.bits_per_sample,
            self.total_samples,
            &zero_md5,
        );
        self.writer.seek_to(self.stream_info_offset + 4);
        let _ = self.writer.write_all(&body);
    }

    /// Writes the final seek points over the placeholder ones.
    fn patch_seektable(&mut self)
        requires
            old(self).seektable_num_points > 0 ==> old(self).seektable_payload_offset == 46,
            old(self).seektable_num_points > 0 ==> 46 + 18 * old(self).seektable_num_points
                <= usize::MAX,
        ensures
            old(self).seektable_num_points == 0 ==> final(self).writer == old(self).writer,
            old(self).seektable_num_points > 0 ==> {
                let table = seek_points_bytes(
                    selected_points(old(self).frame_records@, old(self).seektable_num_points as nat),
                );
                &&& final(self).writer.bytes() == overwrite(old(self).writer.bytes(), 46, table)
                &&& table.len() == 18 * old(self).seektable_num_points
            },
            final(self).written == old(self).written,
            final(self).bytes_written == old(self).bytes_written,
            final(self).origin == old(self).origin,
            final(self).start == old(self).start,
            final(self).options == old(self).options,
            final(self).track == old(self).track,
            final(self).stream_info_offset == old(self).stream_info_offset,
            final(self).seektable_payload_offset == old(self).seektable_payload_offset,
            final(self).seektable_num_points == old(self).seektable_num_points,
            final(self).audio_start_offset == old(self).audio_start_offset,
            final(self).frame_records == old(self).frame_records,
            final(self).min_frame_size == old(self).min_frame_size,
            final(self).max_frame_size == old(self).max_frame_size,
            final(self).total_samples == old(self).total_samples,
            final(self).packet_count == old(self).packet_count,
            final(self).finalized == old(self).finalized,
            final(self).params == old(self).params,
    {
        if self.seektable_num_points == 0 {
            return ;
        }
        let selected = self.select_seek_points();
        let ghost pts = selected@;
        proof {
            lemma_selected_points_len(self.frame_records@, self.seektable_num_points as nat);
            lemma_seek_points_bytes_len(pts);
        }
        let mut table: Vec<u8> = Vec::new();
        let mut k: usize = 0;
        while k < selected.len()
            invariant
                k <= selected@.len(),
                pts == selected@,
                pts.len() == self.seektable_num_points,
                table@ == seek_points_bytes(pts.take(k as int)),
            decreases selected@.len() - k,
        {
            let enc = selected[k].encode();
            push_all(&mut table, &enc);
            proof {
                assert(pts.take(k + 1).drop_last() =~= pts.take(k as int));
            }
            k = k + 1;
        }
        proof {
            assert(pts.take(k as int) =~= pts);
        }
        self.writer.seek_to(self.seektable_payload_offset);
        let _ = self.writer.write_all(table.as_slice());
    }
}

impl Muxer for FlacMuxer {
    closed spec fn muxer_inv(&self) -> bool {
        self.wf()
    }

    fn format_id(&self) -> (r: FormatId)
        ensures
            r == FormatId::Flac,
    {
        FormatId::Flac
    }

    /// Adds the single FLAC track and writes the header.
    fn add_track(&mut self, spec: TrackSpec) -> (r: Result<TrackId, Error>)
        ensures
            old(self).is_finalized() ==> r is Err && r->Err_0 matches Error::InvalidState(_),
            !old(self).is_finalized() && old(self).has_track() ==> r is Err && r->Err_0 matches Error::Unsupported(_),
            !old(self).is_finalized() && !old(self).has_track() && spec.codec_params.codec != CodecId::Flac
                ==> r is Err && r->Err_0 matches Error::InvalidArgument(_),
            r is Ok <==> !old(self).is_finalized() && !old(self).has_track() && flac_add_ok(
                old(self).options(),
                spec.codec_params,
                old(self).cursor().pos(),
            ),
            r is Ok ==> {
                &&& r->Ok_0 == TrackId(0)
                &&& final(self).has_track()
                &&& !final(self).is_finalized()
                &&& final(self).written() == flac_header(old(self).options(), spec.codec_params)
                &&& final(self).track_params() == spec.codec_params
                &&& final(self).audio_start() == final(self).written().len()
                &&& final(self).records().len() == 0
                &&& final(self).total_samples() == 0
                &&& final(self).packet_count() == 0
                &&& final(self).min_frame_size() == u32::MAX
                &&& final(self).max_frame_size() == 0
                &&& final(self).origin() == old(self).origin()
                &&& final(self).start() == old(self).start()
                &&& final(self).options() == old(self).options()
            },
            r is Err ==> *final(self) == *old(self),
    {
        self.ensure_writable()?;
        if self.track.is_some() {
            return Err(Error::Unsupported("flac supports only one audio track"));
        }
        let state = self.write_header(&spec)?;
        let track_id = state.id;
        self.track = Some(state);
        proof {
            assert(self.written@.subrange(0, self.audio_start_offset as int) =~= self.written@);
            lemma_seek_points_bytes_len(placeholders(self.options.max_seek_points as nat));
        }
        Ok(track_id)
    }

    /// Appends one FLAC frame and records it for the seek table.
    open spec fn write_accepts(&self, track: TrackId, packet: EncodedPacket) -> bool {
        let dur = match packet.duration {
            Some(d) => d as int,
            None => 0,
        };
        &&& !self.is_finalized()
        &&& self.has_track()
        &&& track == TrackId(0)
        &&& packet.data@.len() != 0 ==> {
            &&& has_frame_sync(packet.data@)
            &&& packet.data@.len() <= u32::MAX
            &&& self.total_samples() + dur <= u64::MAX
            &&& self.packet_count() < u64::MAX
            &&& self.cursor().pos() + packet.data@.len() <= usize::MAX
        }
    }

    fn write_packet(&mut self, track: TrackId, packet: EncodedPacket) -> (r: Result<(), Error>)
        ensures
            old(self).is_finalized() ==> r is Err && r->Err_0 matches Error::InvalidState(_),
            !old(self).is_finalized() && !old(self).has_track() ==> r is Err && r->Err_0 matches Error::InvalidState(_),
            !old(self).is_finalized() && old(self).has_track() && track != TrackId(0) ==> r is Err
                && r->Err_0 matches Error::InvalidArgument(_),
            !old(self).is_finalized() && old(self).has_track() && track == TrackId(0)
                && packet.data@.len() != 0 && !has_frame_sync(packet.data@) ==> r is Err
                && r->Err_0 matches Error::InvalidArgument(_),
            r is Ok && packet.data@.len() == 0 ==> *final(self) == *old(self),
            r is Ok && packet.data@.len() != 0 ==> {
                let dur: u64 = match packet.duration {
                    Some(d) => d,
                    None => 0,
                };
                let len = packet.data@.len() as u32;
                &&& final(self).written() == old(self).written() + packet.data@
                &&& final(self).records() == old(self).records().push(
                    FrameRecord {
                        sample_number: old(self).total_samples(),
                        stream_offset: (old(self).written().len() - old(self).audio_start()) as u64,
                        frame_samples: if dur > 0xffff {
                            0xffffu16
                        } else {
                            dur as u16
                        },
                    },
                )
                &&& final(self).total_samples() == old(self).total_samples() + dur
                &&& final(self).min_frame_size() == if len < old(self).min_frame_size() {
                    len
                } else {
                    old(self).min_frame_size()
                }
                &&& final(self).max_frame_size() == if len > old(self).max_frame_size() {
                    len
                } else {
                    old(self).max_frame_size()
                }
                &&& final(self).packet_count() == old(self).packet_count() + 1
                &&& final(self).has_track()
                &&& !final(self).is_finalized()
                &&& final(self).audio_start() == old(self).audio_start()
                &&& final(self).track_params() == old(self).track_params()
                &&& final(self).options() == old(self).options()
                &&& final(self).origin() == old(self).origin()
                &&& final(self).start() == old(self).start()
            },
            r is Err ==> *final(self) == *old(self),
    {
        self.ensure_writable()?;
        let state = match self.track {
            Some(st) => st,
            None => {
                return Err(Error::InvalidState("cannot write packet before adding a track"));
            },
        };
        if track != state.id {
            return Err(Error::InvalidArgument("packet written to unknown flac track"));
        }
        if packet.data.len() == 0 {
            return Ok(());
        }
        if packet.data.len() < 2 || packet.data[0] != 0xff || (packet.data[1] & 0xfc) != 0xf8 {
            return Err(
                Error::InvalidArgument("flac packet does not start with a valid frame sync code"),
            );
        }
        if packet.data.len() > u32::MAX as usize {
            return Err(Error::Unsupported("flac frame size exceeds u32"));
        }
        let frame_size = packet.data.len() as u32;
        let duration: u64 = match packet.duration {
            Some(d) => d,
            None => 0,
        };
        if duration > u64::MAX - self.total_samples {
            return Err(Error::InvalidState("total sample count overflow"));
        }
        if self.packet_count == u64::MAX {
            return Err(Error::InvalidState("packet count overflow"));
        }
        let p = self.writer.position();
        if p > usize::MAX as u64 || packet.data.len() > usize::MAX - p as usize {
            return Err(Error::Io("flac frame exceeds addressable memory"));
        }
        if frame_size < self.min_frame_size {
            self.min_frame_size = frame_size;
        }
        if frame_size > self.max_frame_size {
            self.max_frame_size = frame_size;
        }
        let stream_offset = self.bytes_written - self.audio_start_offset;
        let frame_samples: u16 = if duration > 0xffff {
            0xffff
        } else {
            duration as u16
        };
        self.frame_records.push(
            FrameRecord { sample_number: self.total_samples, stream_offset, frame_samples },
        );
        self.total_samples = self.total_samples + duration;
        self.write_all(packet.data.as_slice())?;
        self.packet_count = self.packet_count + 1;
        proof {
            let hl = self.audio_start_offset as int;
            assert(self.written@.subrange(0, hl) =~= old(self).written@.subrange(0, hl));
        }
        Ok(())
    }

    fn flush(&mut self) -> (r: Result<(), Error>)
        ensures
            r is Ok <==> !old(self).is_finalized(),
            r is Err ==> r->Err_0 matches Error::InvalidState(_),
            *final(self) == *old(self),
    {
        self.ensure_writable()?;
        self.writer.flush()
    }

    /// Completes STREAMINFO (frame sizes and total samples) and the seek
    /// table, then leaves the cursor at the end of the file.
    fn finalize(&mut self) -> (r: Result<FinalizeSummary, Error>)
        ensures
            old(self).is_finalized() ==> r is Err && r->Err_0 matches Error::InvalidState(_),
            !old(self).is_finalized() && !old(self).has_track() ==> r is Err && r->Err_0 matches Error::InvalidState(_),
            r is Ok <==> !old(self).is_finalized() && old(self).has_track() && 46 + 18
                * old(self).options().max_seek_points <= usize::MAX,
            r is Ok ==> {
                let info = flac_info(old(self).track_params())->0;
                let n = old(self).options().max_seek_points;
                let si = final_stream_info(
                    info,
                    old(self).track_params(),
                    old(self).min_frame_size(),
                    old(self).max_frame_size(),
                    old(self).total_samples(),
                );
                let table = seek_points_bytes(selected_points(old(self).records(), n as nat));
                let patched = overwrite(old(self).cursor().bytes(), 8, si);
                &&& n == 0 ==> final(self).cursor().bytes() == patched
                &&& n > 0 ==> final(self).cursor().bytes() == overwrite(patched, 46, table)
                &&& final(self).cursor().pos() == final(self).cursor().bytes().len()
                &&& old(self).start() == 0 ==> final(self).cursor().bytes() == placed(
                    old(self).origin(),
                    0,
                    final(self).written(),
                )
                &&& n == 0 ==> final(self).written() == splice(old(self).written(), 8, si)
                &&& n > 0 ==> final(self).written() == splice(
                    splice(old(self).written(), 8, si),
                    46,
                    table,
                )
                &&& final(self).is_finalized()
                &&& final(self).has_track()
                &&& final(self).records() == old(self).records()
                &&& final(self).total_samples() == old(self).total_samples()
                &&& final(self).packet_count() == old(self).packet_count()
                &&& final(self).options() == old(self).options()
                &&& final(self).origin() == old(self).origin()
                &&& final(self).start() == old(self).start()
                &&& r->Ok_0.bytes_written == Some(old(self).written().len() as u64)
                &&& r->Ok_0.packet_count == old(self).packet_count()
                &&& r->Ok_0.total_samples == Some(old(self).total_samples())
            },
            r is Err ==> *final(self) == *old(self),
    {
        self.ensure_writable()?;
        if self.track.is_none() {
            return Err(Error::InvalidState("cannot finalize flac without a track"));
        }
        let n = self.seektable_num_points;
        if n > 0 && (18 * n as u64 > usize::MAX as u64 - 46) {
            return Err(Error::Io("flac seek table exceeds addressable memory"));
        }
        let ghost origin = self.origin@;
        let ghost w0 = self.written@;
        let ghost info = flac_info(self.params@)->0;
        let ghost si = final_stream_info(
            info,
            self.params@,
            self.min_frame_size,
            self.max_frame_size,
            self.total_samples,
        );
        let ghost table = seek_points_bytes(selected_points(self.frame_records@, n as nat));
        proof {
            lemma_seek_points_bytes_len(placeholders(n as nat));
        }
        self.patch_stream_info();
        let ghost w1 = splice(w0, 8, si);
        proof {
            if self.start@ == 0 {
                lemma_placed_splice(origin, 0, w0, 8, si);
            }
        }
        self.patch_seektable();
        let ghost w2 = if n > 0 {
            splice(w1, 46, table)
        } else {
            w1
        };
        proof {
            if n > 0 {
                assert(w1.len() == w0.len());
                if self.start@ == 0 {
                    lemma_placed_splice(origin, 0, w1, 46, table);
                }
            }
        }
        self.written = Ghost(w2);
        self.writer.seek_to_end();
        self.finalized = true;
        Ok(
            FinalizeSummary {
                bytes_written: Some(self.bytes_written),
                packet_count: self.packet_count,
                total_samples: Some(self.total_samples),
            },
        )
    }
}

} // verus!
