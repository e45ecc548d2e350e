//! Ogg framing (RFC 3533): packets are cut into lacing segments of at most
//! 255 bytes and carried in pages of at most 255 segments, each page with its
//! own CRC-32.
use vstd::prelude::*;

use crate::bits::{le32, le64};
use crate::crc::spec_crc32;
use crate::error::Error;
use crate::io::splice;

verus! {

pub const OGG_HEADER_TYPE_CONTINUED: u8 = 0x01;

pub const OGG_HEADER_TYPE_BOS: u8 = 0x02;

pub const OGG_HEADER_TYPE_EOS: u8 = 0x04;

pub open spec fn ogg_capture() -> Seq<u8> {
    seq![0x4fu8, 0x67u8, 0x67u8, 0x53u8]
}

/// The lacing values of a packet of `len` bytes: one 255 for every full
/// segment, then the remainder (zero when the length is a multiple of 255).
pub open spec fn lacing(len: nat) -> Seq<u8> {
    Seq::new(len / 255, |i: int| 255u8).push((len % 255) as u8)
}

/// The sum of lacing values.
pub open spec fn lace_sum(s: Seq<u8>) -> int
    decreases s.len(),
{
    if s.len() == 0 {
        0
    } else {
        lace_sum(s.drop_last()) + s.last()
    }
}

pub proof fn lemma_lace_sum_concat(a: Seq<u8>, b: Seq<u8>)
    ensures
        lace_sum(a + b) == lace_sum(a) + lace_sum(b),
    decreases b.len(),
{
    if b.len() == 0 {
        assert(a + b =~= a);
    } else {
        lemma_lace_sum_concat(a, b.drop_last());
        assert((a + b).drop_last() =~= a + b.drop_last());
    }
}

pub proof fn lemma_lace_sum_nonneg(s: Seq<u8>)
    ensures
        0 <= lace_sum(s) <= 255 * s.len(),
    decreases s.len(),
{
    if s.len() > 0 {
        lemma_lace_sum_nonneg(s.drop_last());
    }
}

proof fn lemma_lace_sum_full(n: nat)
    ensures
        lace_sum(Seq::new(n, |i: int| 255u8)) == 255 * n,
    decreases n,
{
    if n > 0 {
        lemma_lace_sum_full((n - 1) as nat);
        assert(Seq::new(n, |i: int| 255u8).drop_last() =~= Seq::new((n - 1) as nat, |i: int| 255u8));
    }
}

/// The lacing values of a packet add up to its length, so a reader can cut
/// the packet back out of the page bodies.
pub proof fn lemma_lacing_sum(len: nat)
    ensures
        lace_sum(lacing(len)) == len,
        lacing(len).len() == len / 255 + 1,
{
    lemma_lace_sum_full(len / 255);
    assert(lacing(len).drop_last() =~= Seq::new(len / 255, |i: int| 255u8));
}

/// A page before its checksum is filled in.
pub open spec fn page_raw(
    header_type: u8,
    granule: u64,
    serial: u32,
    sequence: u32,
    segments: Seq<u8>,
    body: Seq<u8>,
) -> Seq<u8> {
    ogg_capture() + seq![0u8, header_type] + le64(granule) + le32(serial) + le32(sequence) + le32(0)
        + seq![segments.len() as u8] + segments + body
}

/// A page: the raw page with the CRC-32 of the raw page at bytes 22..26.
pub open spec fn ogg_page(
    header_type: u8,
    granule: u64,
    serial: u32,
    sequence: u32,
    segments: Seq<u8>,
    body: Seq<u8>,
) -> Seq<u8> {
    let raw = page_raw(header_type, granule, serial, sequence, segments, body);
    splice(raw, 22, le32(spec_crc32(raw)))
}

/// The checksum field of a page is the CRC-32 of the page with that field
/// zeroed, as a reader checks it.
pub proof fn lemma_page_checksum(
    header_type: u8,
    granule: u64,
    serial: u32,
    sequence: u32,
    segments: Seq<u8>,
    body: Seq<u8>,
)
    ensures
        ({
            let page = ogg_page(header_type, granule, serial, sequence, segments, body);
            &&& page.len() == 27 + segments.len() + body.len()
            &&& page.subrange(22, 26) == le32(spec_crc32(splice(page, 22, le32(0))))
        }),
{
    let raw = page_raw(header_type, granule, serial, sequence, segments, body);
    let page = ogg_page(header_type, granule, serial, sequence, segments, body);
    assert(splice(page, 22, le32(0)) =~= raw);
    assert(page.subrange(22, 26) =~= le32(spec_crc32(raw)));
}

/// The number of segments the page starting at lacing index `lo` carries.
pub open spec fn page_count_at(total: nat, lo: nat) -> nat {
    if total - lo >= 255 {
        255
    } else {
        (total - lo) as nat
    }
}

/// The pages of a packet from lacing index `lo` and body offset `doff` on,
/// with sequence numbers from `seq`; `first` marks the packet's first page.
pub open spec fn pages_from(
    lace: Seq<u8>,
    p: Seq<u8>,
    lo: nat,
    doff: int,
    first: bool,
    granule: u64,
    first_flags: u8,
    last_flags: u8,
    serial: u32,
    seq: int,
) -> Seq<u8>
    decreases lace.len() - lo,
{
    if lo >= lace.len() {
        Seq::empty()
    } else {
        let cnt = page_count_at(lace.len(), lo);
        let segs = lace.subrange(lo as int, (lo + cnt) as int);
        let dl = lace_sum(segs);
        let completes = lo + cnt == lace.len();
        let ht = (if first {
            first_flags
        } else {
            OGG_HEADER_TYPE_CONTINUED
        }) | (if completes {
            last_flags
        } else {
            0u8
        });
        let gp = if completes {
            granule
        } else {
            u64::MAX
        };
        ogg_page(ht, gp, serial, seq as u32, segs, p.subrange(doff, doff + dl)) + pages_from(
            lace,
            p,
            lo + cnt,
            doff + dl,
            false,
            granule,
            first_flags,
            last_flags,
            serial,
            seq + 1,
        )
    }
}

/// The pages carrying packet `p`, numbered from `seq`.
pub open spec fn ogg_packet_pages(
    p: Seq<u8>,
    granule: u64,
    first_flags: u8,
    last_flags: u8,
    serial: u32,
    seq: int,
) -> Seq<u8> {
    pages_from(lacing(p.len()), p, 0, 0, true, granule, first_flags, last_flags, serial, seq)
}

/// The number of pages from lacing index `lo` on.
pub open spec fn pages_needed(total: nat, lo: nat) -> nat {
    if lo >= total {
        0
    } else {
        ((total - lo + 254) / 255) as nat
    }
}

/// The pages from `lo` on take `pages_needed` pages: 27 header bytes each,
/// the remaining lacing values and the remaining body.
pub proof fn lemma_pages_from_len(
    lace: Seq<u8>,
    p: Seq<u8>,
    lo: nat,
    doff: int,
    first: bool,
    granule: u64,
    first_flags: u8,
    last_flags: u8,
    serial: u32,
    seq: int,
)
    requires
        lo <= lace.len(),
        0 <= doff,
        doff + lace_sum(lace.subrange(lo as int, lace.len() as int)) <= p.len(),
    ensures
        pages_from(lace, p, lo, doff, first, granule, first_flags, last_flags, serial, seq).len()
            == 27 * pages_needed(lace.len(), lo) + (lace.len() - lo) + lace_sum(
            lace.subrange(lo as int, lace.len() as int),
        ),
    decreases lace.len() - lo,
{
    if lo < lace.len() {
        let cnt = page_count_at(lace.len(), lo);
        let segs = lace.subrange(lo as int, (lo + cnt) as int);
        let rest = lace.subrange((lo + cnt) as int, lace.len() as int);
        assert(lace.subrange(lo as int, lace.len() as int) =~= segs + rest);
        lemma_lace_sum_concat(segs, rest);
        lemma_lace_sum_nonneg(segs);
        lemma_lace_sum_nonneg(rest);
        lemma_pages_from_len(
            lace,
            p,
            lo + cnt,
            doff + lace_sum(segs),
            false,
            granule,
            first_flags,
            last_flags,
            serial,
            seq + 1,
        );
        assert(pages_needed(lace.len(), lo) == 1 + pages_needed(lace.len(), lo + cnt));
    } else {
        assert(lace.subrange(lo as int, lace.len() as int) =~= Seq::<u8>::empty());
    }
}

/// The lacing values of a packet of `packet_len` bytes.
pub fn build_lacing_values(packet_len: usize) -> (r: Result<Vec<u8>, Error>)
    ensures
        r is Ok,
        r->Ok_0@ == lacing(packet_len as nat),
{
    let full_segments = packet_len / 255;
    let remainder = packet_len % 255;
    let mut lace: Vec<u8> = Vec::new();
    let mut i: usize = 0;
    while i < full_segments
        invariant
            i <= full_segments,
            lace@ == Seq::new(i as nat, |k: int| 255u8),
        decreases full_segments - i,
    {
        lace.push(255);
        i = i + 1;
        proof {
            assert(lace@ =~= Seq::new(i as nat, |k: int| 255u8));
        }
    }
    lace.push(remainder as u8);
    Ok(lace)
}

} // verus!
