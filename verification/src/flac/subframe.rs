//! FLAC subframes: constant, verbatim and fixed-predictor coding of one channel.
use vstd::prelude::*;

use crate::bits::value_bits;
use crate::flac::bitwriter::BitWriter;
use crate::flac::rice::{
    best_partition_order, encode_partitioned_rice, find_best_partition_order,
    estimate_partitioned_rice_bits, partitioned_bits, partitioned_codes, small_residual,
    small_residuals,
};

verus! {

/// Magnitude limit of the samples a subframe accepts: `|s| < 2^25`.
pub open spec fn small_samples(s: Seq<i64>) -> bool {
    forall|i: int| 0 <= i < s.len() ==> -0x800_0000 < #[trigger] s[i] < 0x800_0000
}

/// The fixed predictor of order `k` (0..=4) for sample `i` (`i >= k`).
pub open spec fn fixed_prediction(s: Seq<i64>, k: int, i: int) -> int {
    if k == 0 {
        0
    } else if k == 1 {
        s[i - 1] as int
    } else if k == 2 {
        2 * s[i - 1] - s[i - 2]
    } else if k == 3 {
        3 * s[i - 1] - 3 * s[i - 2] + s[i - 3]
    } else {
        4 * s[i - 1] - 6 * s[i - 2] + 4 * s[i - 3] - s[i - 4]
    }
}

/// The residuals of the order-`k` fixed predictor: one per sample after the
/// first `k`; none when there are at most `k` samples.
pub open spec fn fixed_residual_seq(s: Seq<i64>, k: int) -> Seq<i64> {
    if s.len() <= k {
        Seq::empty()
    } else {
        Seq::new((s.len() - k) as nat, |j: int| (s[j + k] - fixed_prediction(s, k, j + k)) as i64)
    }
}

proof fn lemma_residual_small(s: Seq<i64>, k: int, i: int)
    requires
        small_samples(s),
        0 <= k <= 4,
        k <= i < s.len(),
    ensures
        small_residual((s[i] - fixed_prediction(s, k, i)) as i64),
        -0x8000_0000 < s[i] - fixed_prediction(s, k, i) < 0x8000_0000,
{
    assert(-0x800_0000 < s[i] < 0x800_0000);
    if k >= 1 {
        assert(-0x800_0000 < s[i - 1] < 0x800_0000);
    }
    if k >= 2 {
        assert(-0x800_0000 < s[i - 2] < 0x800_0000);
    }
    if k >= 3 {
        assert(-0x800_0000 < s[i - 3] < 0x800_0000);
    }
    if k >= 4 {
        assert(-0x800_0000 < s[i - 4] < 0x800_0000);
    }
}

/// Residuals of the order-`order` fixed predictor.
pub fn fixed_residuals(samples: &[i64], order: usize) -> (r: Vec<i64>)
    requires
        order <= 4,
        small_samples(samples@),
    ensures
        r@ == fixed_residual_seq(samples@, order as int),
        small_residuals(r@),
{
    let n = samples.len();
    if n <= order {
        return Vec::new();
    }
    let ghost s = samples@;
    let mut residuals: Vec<i64> = Vec::with_capacity(n - order);
    let mut i: usize = order;
    while i < n
        invariant
            s == samples@,
            n == s.len(),
            order <= 4,
            order <= i <= n,
            small_samples(s),
            residuals@.len() == i - order,
            forall|j: int|
                0 <= j < i - order ==> #[trigger] residuals@[j] == (s[j + order]
                    - fixed_prediction(s, order as int, j + order)) as i64,
            small_residuals(residuals@),
        decreases n - i,
    {
        proof {
            lemma_residual_small(s, order as int, i as int);
        }
        let prediction: i64 = if order == 0 {
            0
        } else if order == 1 {
            samples[i - 1]
        } else if order == 2 {
            2 * samples[i - 1] - samples[i - 2]
        } else if order == 3 {
            3 * samples[i - 1] - 3 * samples[i - 2] + samples[i - 3]
        } else {
            4 * samples[i - 1] - 6 * samples[i - 2] + 4 * samples[i - 3] - samples[i - 4]
        };
        residuals.push(samples[i] - prediction);
        i = i + 1;
    }
    proof {
        assert(residuals@ =~= fixed_residual_seq(s, order as int));
    }
    residuals
}

/// The estimated length of a fixed subframe of order `k`, or `u64::MAX` when
/// there are not more than `k` samples.
pub open spec fn fixed_estimate(s: Seq<i64>, k: int, bps: u8, block_size: int, max_rice: u8) -> int {
    if s.len() <= k {
        0xffff_ffff_ffff_ffff
    } else {
        let rs = fixed_residual_seq(s, k);
        8 + bps * k + partitioned_bits(rs, k, best_partition_order(rs, k, block_size, max_rice))
    }
}

/// The length of a verbatim subframe.
pub open spec fn verbatim_estimate(count: int, bps: u8) -> int {
    8 + bps * count
}

/// The coding chosen for one subframe.
#[derive(Debug, Clone, Copy)]
pub enum Choice {
    Constant(i64),
    Verbatim,
    Fixed(usize),
}

/// The highest fixed order the encoder tries.
pub open spec fn fixed_order_limit(len: int, max_fixed_order: u8) -> int {
    let m = if max_fixed_order < 4 {
        max_fixed_order as int
    } else {
        4
    };
    let l = if len >= 1 {
        len - 1
    } else {
        0
    };
    if m < l {
        m
    } else {
        l
    }
}

/// The choice after trying fixed orders `0..n`, starting from verbatim.
pub open spec fn choice_scan(
    s: Seq<i64>,
    bps: u8,
    block_size: int,
    max_rice: u8,
    n: nat,
) -> (Choice, int)
    decreases n,
{
    if n == 0 {
        (Choice::Verbatim, verbatim_estimate(s.len() as int, bps))
    } else {
        let (c, b) = choice_scan(s, bps, block_size, max_rice, (n - 1) as nat);
        let k = n - 1;
        if fixed_estimate(s, k, bps, block_size, max_rice) < b {
            (Choice::Fixed(k as usize), fixed_estimate(s, k, bps, block_size, max_rice))
        } else {
            (c, b)
        }
    }
}

/// Every sample equals the first, and there is one.
pub open spec fn is_constant(s: Seq<i64>) -> bool {
    s.len() > 0 && forall|i: int| 0 <= i < s.len() ==> #[trigger] s[i] == s[0]
}

/// The coding the encoder picks: constant when all samples agree, else the
/// shortest of verbatim and fixed orders `0..=limit` (verbatim on a tie, then
/// the lowest order).
pub open spec fn spec_select(
    s: Seq<i64>,
    bps: u8,
    block_size: int,
    max_fixed: u8,
    max_rice: u8,
) -> Choice {
    if is_constant(s) {
        Choice::Constant(s[0])
    } else {
        choice_scan(s, bps, block_size, max_rice, (fixed_order_limit(s.len() as int, max_fixed) + 1) as nat).0
    }
}

/// The low `bps` bits of each sample, in order.
pub open spec fn samples_bits(s: Seq<i64>, bps: u8) -> Seq<bool>
    decreases s.len(),
{
    if s.len() == 0 {
        Seq::empty()
    } else {
        samples_bits(s.drop_last(), bps) + value_bits(s.last() as u64, bps as nat)
    }
}

/// The bits of a subframe coded with `choice`.
pub open spec fn choice_bits(
    s: Seq<i64>,
    choice: Choice,
    bps: u8,
    block_size: int,
    max_rice: u8,
) -> Seq<bool> {
    match choice {
        Choice::Constant(v) => value_bits(0, 8) + value_bits(v as u64, bps as nat),
        Choice::Verbatim => value_bits(2, 8) + samples_bits(s, bps),
        Choice::Fixed(k) => {
            let rs = fixed_residual_seq(s, k as int);
            value_bits(((8 + k) * 2) as u64, 8) + samples_bits(s.take(k as int), bps)
                + partitioned_codes(rs, k as int, best_partition_order(rs, k as int, block_size, max_rice))
        },
    }
}

/// The bits of the subframe the encoder writes for `s`.
pub open spec fn subframe_bits(
    s: Seq<i64>,
    bps: u8,
    block_size: int,
    max_fixed: u8,
    max_rice: u8,
) -> Seq<bool> {
    choice_bits(s, spec_select(s, bps, block_size, max_fixed, max_rice), bps, block_size, max_rice)
}

/// Shape requirements shared by the subframe functions.
pub open spec fn subframe_input(s: Seq<i64>, bps: u8, block_size: int, max_rice: u8) -> bool {
    &&& small_samples(s)
    &&& s.len() == block_size
    &&& 0 < block_size <= 0xFFFF_0000
    &&& 0 < bps < 64
    &&& max_rice <= 15
}

fn estimate_fixed_bits(
    samples: &[i64],
    order: usize,
    bps: u8,
    block_size: usize,
    max_rice_order: u8,
) -> (r: u64)
    requires
        subframe_input(samples@, bps, block_size as int, max_rice_order),
        order <= 4,
    ensures
        r == fixed_estimate(samples@, order as int, bps, block_size as int, max_rice_order),
{
    if samples.len() <= order {
        return 0xffff_ffff_ffff_ffff;
    }
    let residuals = fixed_residuals(samples, order);
    let rice_order = find_best_partition_order(
        residuals.as_slice(),
        order,
        block_size,
        max_rice_order,
    );
    let rice_bits = estimate_partitioned_rice_bits(residuals.as_slice(), order, rice_order);
    proof {
        crate::flac::rice::lemma_partitioned_bits_bound(residuals@, order as int, rice_order);
    }
    assert((bps as u64) * (order as u64) <= 64 * 4) by (nonlinear_arith)
        requires
            bps < 64,
            order <= 4,
    ;
    8 + (bps as u64) * (order as u64) + rice_bits
}

fn verbatim_bits(count: usize, bps: u8) -> (r: u64)
    requires
        count <= 0xFFFF_0000,
        bps < 64,
    ensures
        r == verbatim_estimate(count as int, bps),
{
    assert((bps as u64) * (count as u64) <= 64 * 0xFFFF_0000) by (nonlinear_arith)
        requires
            bps < 64,
            count <= 0xFFFF_0000,
    ;
    8 + (bps as u64) * (count as u64)
}

proof fn lemma_choice_scan_bound(
    s: Seq<i64>,
    bps: u8,
    block_size: int,
    max_rice: u8,
    n: nat,
)
    requires
        subframe_input(s, bps, block_size, max_rice),
        n <= 5,
        n >= 1 ==> n - 1 < s.len(),
    ensures
        ({
            let (c, b) = choice_scan(s, bps, block_size, max_rice, n);
            &&& b <= verbatim_estimate(s.len() as int, bps)
            &&& c matches Choice::Fixed(k) ==> k < n && k < s.len()
            &&& c matches Choice::Fixed(k) ==> b == fixed_estimate(s, k as int, bps, block_size, max_rice)
            &&& c matches Choice::Verbatim ==> b == verbatim_estimate(s.len() as int, bps)
            &&& !(c is Constant)
        }),
    decreases n,
{
    if n > 0 {
        lemma_choice_scan_bound(s, bps, block_size, max_rice, (n - 1) as nat);
    }
}

fn select_subframe(
    samples: &[i64],
    bps: u8,
    block_size: usize,
    max_fixed_order: u8,
    max_rice_order: u8,
) -> (r: Choice)
    requires
        subframe_input(samples@, bps, block_size as int, max_rice_order),
    ensures
        r == spec_select(samples@, bps, block_size as int, max_fixed_order, max_rice_order),
{
    let ghost s = samples@;
    if samples.len() > 0 {
        let val = samples[0];
        let mut all = true;
        let mut i: usize = 0;
        while i < samples.len()
            invariant
                s == samples@,
                i <= s.len(),
                s.len() > 0,
                val == s[0],
                all == (forall|j: int| 0 <= j < i ==> #[trigger] s[j] == s[0]),
            decreases s.len() - i,
        {
            if samples[i] != val {
                all = false;
            }
            i = i + 1;
        }
        if all {
            return Choice::Constant(val);
        }
    }
    let mut best_bits = verbatim_bits(samples.len(), bps);
    let mut best = Choice::Verbatim;
    let m: usize = if max_fixed_order < 4 {
        max_fixed_order as usize
    } else {
        4
    };
    let l: usize = if samples.len() >= 1 {
        samples.len() - 1
    } else {
        0
    };
    let limit: usize = if m < l {
        m
    } else {
        l
    };
    let mut order: usize = 0;
    while order <= limit
        invariant
            s == samples@,
            subframe_input(s, bps, block_size as int, max_rice_order),
            limit == fixed_order_limit(s.len() as int, max_fixed_order),
            limit <= 4,
            order <= limit + 1,
            (best, best_bits as int) == choice_scan(s, bps, block_size as int, max_rice_order, order as nat),
        decreases limit + 1 - order,
    {
        let bits = estimate_fixed_bits(samples, order, bps, block_size, max_rice_order);
        if bits < best_bits {
            best_bits = bits;
            best = Choice::Fixed(order);
        }
        order = order + 1;
    }
    best
}

/// Writes the low `bps` bits of each sample.
fn write_samples(writer: &mut BitWriter, samples: &[i64], bps: u8)
    requires
        old(writer).wf(),
        0 < bps <= 64,
    ensures
        final(writer).wf(),
        final(writer).view() == old(writer).view() + samples_bits(samples@, bps),
{
    let ghost start = writer.view();
    let mut i: usize = 0;
    while i < samples.len()
        invariant
            writer.wf(),
            0 < bps <= 64,
            i <= samples@.len(),
            writer.view() == start + samples_bits(samples@.take(i as int), bps),
        decreases samples@.len() - i,
    {
        writer.write_signed(samples[i], bps);
        proof {
            assert(samples@.take(i + 1).drop_last() =~= samples@.take(i as int));
        }
        i = i + 1;
    }
    proof {
        assert(samples@.take(i as int) =~= samples@);
    }
}

/// Writes one subframe, choosing the shortest coding.
pub fn encode_subframe(
    writer: &mut BitWriter,
    samples: &[i64],
    bps: u8,
    block_size: usize,
    max_fixed_order: u8,
    max_rice_order: u8,
)
    requires
        old(writer).wf(),
        subframe_input(samples@, bps, block_size as int, max_rice_order),
    ensures
        final(writer).wf(),
        final(writer).view() == old(writer).view() + subframe_bits(
            samples@,
            bps,
            block_size as int,
            max_fixed_order,
            max_rice_order,
        ),
{
    let ghost s = samples@;
    let choice = select_subframe(samples, bps, block_size, max_fixed_order, max_rice_order);
    proof {
        if !is_constant(s) {
            lemma_choice_scan_bound(
                s,
                bps,
                block_size as int,
                max_rice_order,
                (fixed_order_limit(s.len() as int, max_fixed_order) + 1) as nat,
            );
        }
    }
    match choice {
        Choice::Constant(value) => {
            writer.write_bits(0x00, 8);
            writer.write_signed(value, bps);
        },
        Choice::Verbatim => {
            writer.write_bits(0x02, 8);
            write_samples(writer, samples, bps);
        },
        Choice::Fixed(order) => {
            let header: u64 = ((8 + order) * 2) as u64;
            writer.write_bits(header, 8);
            write_samples(writer, &samples[0..order], bps);
            let residuals = fixed_residuals(samples, order);
            let rice_order = find_best_partition_order(
                residuals.as_slice(),
                order,
                block_size,
                max_rice_order,
            );
            encode_partitioned_rice(writer, residuals.as_slice(), order, rice_order);
            proof {
                assert(samples@.subrange(0, order as int) =~= s.take(order as int));
            }
        },
    }
}


/// Fixed prediction is exact on low-degree signals: the order-1 residuals of a
/// constant signal and the order-2 residuals of a linear signal
/// (`s[i] == a + b * i`) are all zero.
pub proof fn lemma_fixed_residuals_vanish(s: Seq<i64>, a: int, b: int)
    requires
        forall|i: int| 0 <= i < s.len() ==> #[trigger] s[i] == a + b * i,
    ensures
        b == 0 ==> forall|j: int| 0 <= j < fixed_residual_seq(s, 1).len() ==> #[trigger] fixed_residual_seq(s, 1)[j] == 0,
        forall|j: int| 0 <= j < fixed_residual_seq(s, 2).len() ==> #[trigger] fixed_residual_seq(s, 2)[j] == 0,
{
    if b == 0 {
        assert forall|j: int| 0 <= j < fixed_residual_seq(s, 1).len() implies #[trigger] fixed_residual_seq(s, 1)[j] == 0 by {
            assert(s[j + 1] == a + b * (j + 1));
            assert(s[j] == a + b * j);
            assert(b * (j + 1) == 0 && b * j == 0) by (nonlinear_arith) requires b == 0;
        }
    }
    assert forall|j: int| 0 <= j < fixed_residual_seq(s, 2).len() implies #[trigger] fixed_residual_seq(s, 2)[j] == 0 by {
        let i = j + 2;
        assert(s[i] == a + b * i);
        assert(s[i - 1] == a + b * (i - 1));
        assert(s[i - 2] == a + b * (i - 2));
        assert(2 * (a + b * (i - 1)) - (a + b * (i - 2)) == a + b * i) by (nonlinear_arith);
    }
}

/// The value of the order-`k` residual at sample `i`, as a number.
pub open spec fn residual_value(s: Seq<i64>, k: int, i: int) -> int {
    s[i] - fixed_prediction(s, k, i)
}

/// Every order-`k` residual of `s` fits `i64`: the predictor does not overflow.
pub open spec fn residuals_fit(s: Seq<i64>, k: int) -> bool {
    forall|i: int| k <= i < s.len() ==> i64::MIN <= #[trigger] residual_value(s, k, i) <= i64::MAX
}

/// Fixed residuals are differences: order 0 gives the samples themselves, and
/// where the residuals of orders `k` and `k + 1` do not overflow, each
/// residual of order `k + 1` is the difference of two consecutive residuals
/// of order `k`.
pub proof fn lemma_fixed_residuals_difference(s: Seq<i64>, k: int)
    requires
        0 <= k <= 3,
        residuals_fit(s, k),
        residuals_fit(s, k + 1),
    ensures
        fixed_residual_seq(s, 0) == s,
        s.len() > k + 1 ==> fixed_residual_seq(s, k + 1).len() + 1 == fixed_residual_seq(s, k).len(),
        forall|j: int|
            0 <= j < fixed_residual_seq(s, k + 1).len() ==> #[trigger] fixed_residual_seq(s, k + 1)[j]
                == fixed_residual_seq(s, k)[j + 1] - fixed_residual_seq(s, k)[j],
{
    if s.len() == 0 {
        assert(fixed_residual_seq(s, 0) =~= s);
    } else {
        assert forall|j: int| 0 <= j < s.len() implies #[trigger] fixed_residual_seq(s, 0)[j] == s[j] by {
        }
        assert(fixed_residual_seq(s, 0) =~= s);
    }
    assert forall|j: int|
        0 <= j < fixed_residual_seq(s, k + 1).len() implies #[trigger] fixed_residual_seq(s, k + 1)[j]
            == fixed_residual_seq(s, k)[j + 1] - fixed_residual_seq(s, k)[j] by {
        let i = j + k + 1;
        assert(i64::MIN <= residual_value(s, k + 1, i) <= i64::MAX);
        assert(i64::MIN <= residual_value(s, k, i) <= i64::MAX);
        assert(i64::MIN <= residual_value(s, k, i - 1) <= i64::MAX);
        assert(residual_value(s, k + 1, i) == residual_value(s, k, i) - residual_value(s, k, i - 1));
        assert(fixed_residual_seq(s, k)[j + 1] == residual_value(s, k, i));
        assert(fixed_residual_seq(s, k)[j] == residual_value(s, k, i - 1));
        assert(fixed_residual_seq(s, k + 1)[j] == residual_value(s, k + 1, i));
    }
}

/// The estimated length of a coding choice.
pub open spec fn choice_cost(s: Seq<i64>, bps: u8, block_size: int, max_rice: u8, c: Choice) -> int {
    match c {
        Choice::Verbatim => verbatim_estimate(s.len() as int, bps),
        Choice::Fixed(k) => fixed_estimate(s, k as int, bps, block_size, max_rice),
        Choice::Constant(_) => 0,
    }
}

proof fn lemma_choice_scan_least(s: Seq<i64>, bps: u8, block_size: int, max_rice: u8, n: nat)
    requires
        n <= 5,
    ensures
        ({
            let (c, b) = choice_scan(s, bps, block_size, max_rice, n);
            &&& b == choice_cost(s, bps, block_size, max_rice, c)
            &&& !(c is Constant)
            &&& c matches Choice::Fixed(k) ==> k < n
            &&& b <= verbatim_estimate(s.len() as int, bps)
            &&& forall|k: int| 0 <= k < n ==> b <= #[trigger] fixed_estimate(s, k, bps, block_size, max_rice)
            &&& c matches Choice::Fixed(k) ==> b < verbatim_estimate(s.len() as int, bps) && forall|j: int|
                0 <= j < k ==> b < #[trigger] fixed_estimate(s, j, bps, block_size, max_rice)
        }),
    decreases n,
{
    if n > 0 {
        lemma_choice_scan_least(s, bps, block_size, max_rice, (n - 1) as nat);
    }
}

/// The subframe choice is optimal: a constant block, and only a constant
/// block, is coded as a constant; otherwise the choice's estimate is no
/// longer than verbatim coding and every fixed order up to the limit. Ties
/// keep verbatim, then the lowest fixed order.
pub proof fn lemma_select_optimal(s: Seq<i64>, bps: u8, block_size: int, max_fixed: u8, max_rice: u8)
    ensures
        ({
            let c = spec_select(s, bps, block_size, max_fixed, max_rice);
            let lim = fixed_order_limit(s.len() as int, max_fixed);
            let cost = choice_cost(s, bps, block_size, max_rice, c);
            &&& is_constant(s) <==> c is Constant
            &&& is_constant(s) ==> c == Choice::Constant(s[0])
            &&& !is_constant(s) ==> {
                &&& c matches Choice::Fixed(k) ==> k <= lim
                &&& cost <= verbatim_estimate(s.len() as int, bps)
                &&& forall|k: int| 0 <= k <= lim ==> cost <= #[trigger] fixed_estimate(
                    s,
                    k,
                    bps,
                    block_size,
                    max_rice,
                )
                &&& c matches Choice::Fixed(k) ==> cost < verbatim_estimate(s.len() as int, bps)
                    && forall|j: int| 0 <= j < k ==> cost < #[trigger] fixed_estimate(s, j, bps, block_size, max_rice)
            }
        }),
{
    let lim = fixed_order_limit(s.len() as int, max_fixed);
    assert(0 <= lim <= 4);
    lemma_choice_scan_least(s, bps, block_size, max_rice, (lim + 1) as nat);
}
} // verus!
