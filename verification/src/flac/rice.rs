//! Partitioned Rice coding of prediction residuals (FLAC residual method 0).
use vstd::prelude::*;

use crate::bits::value_bits;
use crate::flac::bitwriter::{unary_bits, BitWriter};
use vstd::arithmetic::power2::pow2;

verus! {

/// Magnitude limit of the residuals the coder accepts: `|r| < 2^29`.
pub open spec fn small_residual(r: i64) -> bool {
    -0x8000_0000 < r < 0x8000_0000
}

pub open spec fn small_residuals(rs: Seq<i64>) -> bool {
    forall|i: int| 0 <= i < rs.len() ==> small_residual(#[trigger] rs[i])
}

/// The zig-zag mapping of signed residuals onto naturals: 0, -1, 1, -2, 2, ...
/// become 0, 1, 2, 3, 4, ...
pub open spec fn zigzag(v: int) -> int {
    if v >= 0 {
        2 * v
    } else {
        -2 * v - 1
    }
}

/// The number of bits of the Rice code of `r` with parameter `p`.
pub open spec fn rice_cost(r: i64, p: u8) -> int {
    ((zigzag(r as int) as u64) >> (p as u64)) + 1 + p
}

/// The number of bits of the Rice codes of all of `rs` with parameter `p`.
pub open spec fn rice_bits(rs: Seq<i64>, p: u8) -> int
    decreases rs.len(),
{
    if rs.len() == 0 {
        0
    } else {
        rice_bits(rs.drop_last(), p) + rice_cost(rs.last(), p)
    }
}

/// The Rice code of `r` with parameter `p`: the quotient in unary, then the
/// low `p` bits.
pub open spec fn rice_code(r: i64, p: u8) -> Seq<bool> {
    let z = zigzag(r as int) as u64;
    unary_bits((z >> (p as u64)) as nat) + value_bits(z, p as nat)
}

pub open spec fn rice_codes(rs: Seq<i64>, p: u8) -> Seq<bool>
    decreases rs.len(),
{
    if rs.len() == 0 {
        Seq::empty()
    } else {
        rice_codes(rs.drop_last(), p) + rice_code(rs.last(), p)
    }
}

/// The best parameter among `0..=n`: the first one of least cost.
pub open spec fn best_param_upto(rs: Seq<i64>, n: nat) -> u8
    decreases n,
{
    if n == 0 {
        0
    } else {
        let b = best_param_upto(rs, (n - 1) as nat);
        if rice_bits(rs, n as u8) < rice_bits(rs, b) {
            n as u8
        } else {
            b
        }
    }
}

/// The Rice parameter the encoder picks for a partition.
pub open spec fn best_param(rs: Seq<i64>) -> u8 {
    best_param_upto(rs, 14)
}

proof fn lemma_zigzag_bound(r: i64)
    requires
        small_residual(r),
    ensures
        0 <= zigzag(r as int) < 0x1_0000_0000,
{
}

proof fn lemma_shift_le(z: u64, p: u64)
    requires
        p < 64,
    ensures
        z >> p <= z,
{
    assert(z >> p <= z) by (bit_vector);
}

proof fn lemma_rice_bits_bound(rs: Seq<i64>, p: u8)
    requires
        small_residuals(rs),
        p <= 14,
    ensures
        0 <= rice_bits(rs, p) <= rs.len() * 0x1_0000_0010,
    decreases rs.len(),
{
    if rs.len() > 0 {
        assert(small_residuals(rs.drop_last()));
        lemma_rice_bits_bound(rs.drop_last(), p);
        assert(small_residual(rs[rs.len() - 1]));
        lemma_zigzag_bound(rs.last());
        lemma_shift_le(zigzag(rs.last() as int) as u64, p as u64);
    }
}

/// The estimate of a parameter's cost is the exact length of its code.
pub proof fn lemma_rice_codes_len(rs: Seq<i64>, p: u8)
    ensures
        rice_codes(rs, p).len() == rice_bits(rs, p),
    decreases rs.len(),
{
    if rs.len() > 0 {
        lemma_rice_codes_len(rs.drop_last(), p);
    }
}

proof fn lemma_best_param_upto_range(rs: Seq<i64>, n: nat)
    requires
        n <= 14,
    ensures
        best_param_upto(rs, n) <= n,
    decreases n,
{
    if n > 0 {
        lemma_best_param_upto_range(rs, (n - 1) as nat);
    }
}

proof fn lemma_best_param_empty(rs: Seq<i64>, n: nat)
    requires
        rs.len() == 0,
        n <= 14,
    ensures
        best_param_upto(rs, n) == 0,
    decreases n,
{
    if n > 0 {
        lemma_best_param_empty(rs, (n - 1) as nat);
    }
}

/// The chosen parameter is the first one of least cost among `0..=14`.
pub proof fn lemma_best_param_is_least(rs: Seq<i64>, n: nat)
    requires
        n <= 14,
    ensures
        best_param_upto(rs, n) <= n,
        forall|p: u8| p <= n ==> rice_bits(rs, best_param_upto(rs, n)) <= #[trigger] rice_bits(rs, p),
        forall|p: u8| p < best_param_upto(rs, n) ==> rice_bits(rs, best_param_upto(rs, n)) < #[trigger] rice_bits(rs, p),
    decreases n,
{
    lemma_best_param_upto_range(rs, n);
    if n > 0 {
        lemma_best_param_is_least(rs, (n - 1) as nat);
    }
}

/// Zig-zag folding of a residual.
pub fn fold(value: i64) -> (r: u64)
    requires
        value != i64::MIN,
    ensures
        r == zigzag(value as int),
{
    if value >= 0 {
        assert((value as u64) << 1u64 == 2 * (value as u64)) by (bit_vector)
            requires
                value >= 0,
        ;
        (value as u64) << 1
    } else {
        let m: u64 = (-value) as u64;
        assert(m << 1u64 == 2 * m) by (bit_vector)
            requires
                m < 0x8000_0000_0000_0000,
        ;
        (m << 1) - 1
    }
}

/// The number of bits the Rice codes of `residuals` take with `rice_param`.
pub fn estimate_rice_bits(residuals: &[i64], rice_param: u8) -> (r: u64)
    requires
        small_residuals(residuals@),
        rice_param <= 14,
        residuals@.len() <= 0xFFFF_0000,
    ensures
        r == rice_bits(residuals@, rice_param),
{
    let param = rice_param as u64;
    let mut total: u64 = 0;
    let mut i: usize = 0;
    while i < residuals.len()
        invariant
            i <= residuals@.len() <= 0xFFFF_0000,
            small_residuals(residuals@),
            rice_param <= 14,
            param == rice_param,
            total == rice_bits(residuals@.take(i as int), rice_param),
            total <= i * 0x1_0000_0010,
        decreases residuals@.len() - i,
    {
        let r = residuals[i];
        assert(small_residual(residuals@[i as int]));
        let folded = fold(r);
        proof {
            lemma_zigzag_bound(r);
            lemma_shift_le(folded, param);
            assert(residuals@.take(i + 1).drop_last() =~= residuals@.take(i as int));
        }
        total = total + (folded >> param) + 1 + param;
        i = i + 1;
    }
    proof {
        assert(residuals@.take(i as int) =~= residuals@);
    }
    total
}

/// The parameter in `0..=14` whose Rice codes are shortest (the first such).
pub fn find_best_rice_param(residuals: &[i64]) -> (r: u8)
    requires
        small_residuals(residuals@),
        residuals@.len() <= 0xFFFF_0000,
    ensures
        r == best_param(residuals@),
        r <= 14,
{
    if residuals.len() == 0 {
        proof {
            lemma_best_param_empty(residuals@, 14);
        }
        return 0;
    }
    let mut best_param: u8 = 0;
    let mut best_bits = estimate_rice_bits(residuals, 0);
    let mut param: u8 = 1;
    while param <= 14
        invariant
            1 <= param <= 15,
            small_residuals(residuals@),
            residuals@.len() <= 0xFFFF_0000,
            best_param == best_param_upto(residuals@, (param - 1) as nat),
            best_bits == rice_bits(residuals@, best_param),
        decreases 15 - param,
    {
        let bits = estimate_rice_bits(residuals, param);
        proof {
            lemma_best_param_upto_range(residuals@, (param - 1) as nat);
        }
        if bits < best_bits {
            best_bits = bits;
            best_param = param;
        }
        param = param + 1;
    }
    proof {
        lemma_best_param_upto_range(residuals@, 14);
    }
    best_param
}

fn write_rice_residuals(writer: &mut BitWriter, residuals: &[i64], rice_param: u8)
    requires
        old(writer).wf(),
        small_residuals(residuals@),
        rice_param <= 14,
    ensures
        final(writer).wf(),
        final(writer).view() == old(writer).view() + rice_codes(residuals@, rice_param),
{
    let ghost start = writer.view();
    let mut i: usize = 0;
    while i < residuals.len()
        invariant
            i <= residuals@.len(),
            writer.wf(),
            small_residuals(residuals@),
            rice_param <= 14,
            writer.view() == start + rice_codes(residuals@.take(i as int), rice_param),
        decreases residuals@.len() - i,
    {
        let r = residuals[i];
        assert(small_residual(residuals@[i as int]));
        let folded = fold(r);
        proof {
            lemma_zigzag_bound(r);
            lemma_shift_le(folded, rice_param as u64);
        }
        let quotient = (folded >> rice_param) as u32;
        writer.write_unary(quotient);
        if rice_param > 0 {
            assert(1u64 << rice_param >= 1) by (bit_vector)
                requires
                    rice_param <= 14,
            ;
            let remainder = folded & ((1u64 << rice_param) - 1);
            proof {
                crate::flac::bitwriter::lemma_low_bits_of_mask(folded, rice_param);
            }
            writer.write_bits(remainder, rice_param);
        } else {
            proof {
                assert(value_bits(folded, 0) =~= Seq::<bool>::empty());
            }
        }
        proof {
            assert(residuals@.take(i + 1).drop_last() =~= residuals@.take(i as int));
            assert(writer.view() =~= start + rice_codes(residuals@.take(i + 1), rice_param));
        }
        i = i + 1;
    }
    proof {
        assert(residuals@.take(i as int) =~= residuals@);
    }
}


/// The number of partitions of partition order `o`.
pub open spec fn partition_count(o: u8) -> nat {
    (1usize << o) as nat
}

/// `n` consecutive partitions fit in `len` residuals: the first of `first`
/// residuals, every later one of `size`.
pub open spec fn chunks_fit(len: int, first: int, size: int, n: nat) -> bool
    decreases n,
{
    if n == 0 {
        len >= 0
    } else {
        0 <= first <= len && chunks_fit(len - first, size, size, (n - 1) as nat)
    }
}

/// The estimated bits of the partitions: a 4-bit parameter plus the Rice codes
/// of each partition.
pub open spec fn partition_cost(rs: Seq<i64>, first: int, size: int, n: nat) -> int
    decreases n,
{
    if n == 0 {
        0
    } else {
        let c = rs.take(first);
        4 + rice_bits(c, best_param(c)) + partition_cost(rs.skip(first), size, size, (n - 1) as nat)
    }
}

/// The coded partitions: each one's 4-bit parameter then its Rice codes.
pub open spec fn partition_codes(rs: Seq<i64>, first: int, size: int, n: nat) -> Seq<bool>
    decreases n,
{
    if n == 0 {
        Seq::empty()
    } else {
        let c = rs.take(first);
        value_bits(best_param(c) as u64, 4) + rice_codes(c, best_param(c)) + partition_codes(
            rs.skip(first),
            size,
            size,
            (n - 1) as nat,
        )
    }
}

/// The size of each partition of order `o` when `total` samples are split.
pub open spec fn spec_partition_size(total: int, o: u8) -> int {
    total / (partition_count(o) as int)
}

/// The estimated length of a residual block with partition order `o`: the
/// 6-bit method and order fields, then the partitions.
pub open spec fn partitioned_bits(rs: Seq<i64>, predictor_order: int, o: u8) -> int {
    let size = spec_partition_size(rs.len() + predictor_order, o);
    6 + partition_cost(rs, size - predictor_order, size, partition_count(o))
}

/// The coded residual block with partition order `o`.
pub open spec fn partitioned_codes(rs: Seq<i64>, predictor_order: int, o: u8) -> Seq<bool> {
    let size = spec_partition_size(rs.len() + predictor_order, o);
    value_bits(0, 2) + value_bits(o as u64, 4) + partition_codes(
        rs,
        size - predictor_order,
        size,
        partition_count(o),
    )
}

/// The partitions of order `o` are well formed: none is of negative size.
pub open spec fn partition_order_usable(len: int, predictor_order: int, o: u8) -> bool {
    o <= 15 && spec_partition_size(len + predictor_order, o) >= predictor_order
}

proof fn lemma_partition_count(o: u8)
    requires
        o <= 15,
    ensures
        1 <= partition_count(o) <= 32768,
        (1usize << o) == partition_count(o),
{
    assert(1 <= (1usize << o) <= 32768) by (bit_vector)
        requires
            o <= 15,
    ;
}

proof fn lemma_chunks_fit(len: int, first: int, size: int, n: nat)
    requires
        0 <= first,
        0 <= size,
        n >= 1 ==> first + (n - 1) * size <= len,
        n == 0 ==> len >= 0,
    ensures
        chunks_fit(len, first, size, n),
    decreases n,
{
    if n > 0 {
        if n >= 2 {
            assert(first + (n - 1) * size == first + size + (n - 2) * size) by (nonlinear_arith);
        } else {
            assert((n - 1) * size == 0) by (nonlinear_arith)
                requires
                    n == 1,
            ;
        }
        lemma_chunks_fit(len - first, size, size, (n - 1) as nat);
    }
}

proof fn lemma_partitions_fit(len: int, predictor_order: int, o: u8)
    requires
        len >= 0,
        predictor_order >= 0,
        partition_order_usable(len, predictor_order, o),
    ensures
        chunks_fit(
            len,
            spec_partition_size(len + predictor_order, o) - predictor_order,
            spec_partition_size(len + predictor_order, o),
            partition_count(o),
        ),
{
    lemma_partition_count(o);
    let n = partition_count(o) as int;
    let t = len + predictor_order;
    let size = t / n;
    assert(n * size <= t) by (nonlinear_arith)
        requires
            n >= 1,
            t >= 0,
            size == t / n,
    ;
    assert(size - predictor_order + (n - 1) * size == n * size - predictor_order) by (nonlinear_arith);
    lemma_chunks_fit(len, size - predictor_order, size, n as nat);
}

proof fn lemma_partition_cost_bound(rs: Seq<i64>, first: int, size: int, n: nat)
    requires
        chunks_fit(rs.len() as int, first, size, n),
        small_residuals(rs),
    ensures
        0 <= partition_cost(rs, first, size, n) <= 4 * n + rs.len() * 0x1_0000_0010,
    decreases n,
{
    if n > 0 {
        let c = rs.take(first);
        assert(small_residuals(c));
        assert(small_residuals(rs.skip(first)));
        lemma_best_param_upto_range(c, 14);
        lemma_rice_bits_bound(c, best_param(c));
        lemma_partition_cost_bound(rs.skip(first), size, size, (n - 1) as nat);
        assert(c.len() * 0x1_0000_0010 + rs.skip(first).len() * 0x1_0000_0010 == rs.len() * 0x1_0000_0010)
            by (nonlinear_arith)
            requires
                c.len() + rs.skip(first).len() == rs.len(),
        ;
    }
}

/// Estimated bits of the residual block with partition order `partition_order`.
pub fn estimate_partitioned_rice_bits(
    residuals: &[i64],
    predictor_order: usize,
    partition_order: u8,
) -> (r: u64)
    requires
        small_residuals(residuals@),
        residuals@.len() + predictor_order <= 0xFFFF_0000,
        partition_order_usable(residuals@.len() as int, predictor_order as int, partition_order),
    ensures
        r == partitioned_bits(residuals@, predictor_order as int, partition_order),
{
    proof {
        lemma_partition_count(partition_order);
        lemma_partitions_fit(residuals@.len() as int, predictor_order as int, partition_order);
    }
    let num_partitions: usize = 1usize << partition_order;
    let total_samples = residuals.len() + predictor_order;
    let partition_size = total_samples / num_partitions;
    let ghost rs = residuals@;
    let ghost full = partitioned_bits(rs, predictor_order as int, partition_order);
    let mut total: u64 = 6;
    let mut offset: usize = 0;
    let mut i: usize = 0;
    proof {
        assert(rs.skip(0) =~= rs);
        lemma_partition_cost_bound(
            rs,
            partition_size - predictor_order,
            partition_size as int,
            num_partitions as nat,
        );
    }
    while i < num_partitions
        invariant
            rs == residuals@,
            small_residuals(rs),
            rs.len() + predictor_order <= 0xFFFF_0000,
            1 <= num_partitions <= 32768,
            num_partitions == partition_count(partition_order),
            partition_size == spec_partition_size(rs.len() + predictor_order, partition_order),
            partition_size >= predictor_order,
            i <= num_partitions,
            offset <= rs.len(),
            chunks_fit(
                rs.len() - offset,
                if i == 0 {
                    partition_size - predictor_order
                } else {
                    partition_size as int
                },
                partition_size as int,
                (num_partitions - i) as nat,
            ),
            total + partition_cost(
                rs.skip(offset as int),
                if i == 0 {
                    partition_size - predictor_order
                } else {
                    partition_size as int
                },
                partition_size as int,
                (num_partitions - i) as nat,
            ) == full,
            full <= 6 + 4 * num_partitions + rs.len() * 0x1_0000_0010,
            total >= 6,
        decreases num_partitions - i,
    {
        let count = if i == 0 {
            partition_size - predictor_order
        } else {
            partition_size
        };
        let partition = &residuals[offset..offset + count];
        proof {
            assert(partition@ =~= rs.skip(offset as int).take(count as int));
            assert(small_residuals(partition@));
            assert(rs.skip(offset as int).skip(count as int) =~= rs.skip(offset + count));
            lemma_partition_cost_bound(
                rs.skip(offset + count),
                partition_size as int,
                partition_size as int,
                (num_partitions - i - 1) as nat,
            );
        }
        let param = find_best_rice_param(partition);
        let bits = estimate_rice_bits(partition, param);
        total = total + 4 + bits;
        offset = offset + count;
        i = i + 1;
    }
    proof {
        assert(partition_cost(rs.skip(offset as int), partition_size as int, partition_size as int, 0) == 0);
    }
    total
}

/// Writes the residual block with partition order `partition_order`.
pub fn encode_partitioned_rice(
    writer: &mut BitWriter,
    residuals: &[i64],
    predictor_order: usize,
    partition_order: u8,
)
    requires
        old(writer).wf(),
        small_residuals(residuals@),
        residuals@.len() + predictor_order <= 0xFFFF_0000,
        partition_order_usable(residuals@.len() as int, predictor_order as int, partition_order),
    ensures
        final(writer).wf(),
        final(writer).view() == old(writer).view() + partitioned_codes(
            residuals@,
            predictor_order as int,
            partition_order,
        ),
{
    proof {
        lemma_partition_count(partition_order);
        lemma_partitions_fit(residuals@.len() as int, predictor_order as int, partition_order);
    }
    let num_partitions: usize = 1usize << partition_order;
    let total_samples = residuals.len() + predictor_order;
    let partition_size = total_samples / num_partitions;
    let ghost rs = residuals@;
    let ghost start = writer.view();
    writer.write_bits(0, 2);
    writer.write_bits(partition_order as u64, 4);
    let ghost head = writer.view();
    let mut offset: usize = 0;
    let mut i: usize = 0;
    proof {
        assert(rs.skip(0) =~= rs);
    }
    while i < num_partitions
        invariant
            rs == residuals@,
            small_residuals(rs),
            rs.len() + predictor_order <= 0xFFFF_0000,
            1 <= num_partitions <= 32768,
            num_partitions == partition_count(partition_order),
            partition_size == spec_partition_size(rs.len() + predictor_order, partition_order),
            partition_size >= predictor_order,
            i <= num_partitions,
            offset <= rs.len(),
            writer.wf(),
            head == start + value_bits(0, 2) + value_bits(partition_order as u64, 4),
            chunks_fit(
                rs.len() - offset,
                if i == 0 {
                    partition_size - predictor_order
                } else {
                    partition_size as int
                },
                partition_size as int,
                (num_partitions - i) as nat,
            ),
            writer.view() + partition_codes(
                rs.skip(offset as int),
                if i == 0 {
                    partition_size - predictor_order
                } else {
                    partition_size as int
                },
                partition_size as int,
                (num_partitions - i) as nat,
            ) == head + partition_codes(
                rs,
                partition_size - predictor_order,
                partition_size as int,
                num_partitions as nat,
            ),
        decreases num_partitions - i,
    {
        let count = if i == 0 {
            partition_size - predictor_order
        } else {
            partition_size
        };
        let partition = &residuals[offset..offset + count];
        proof {
            assert(partition@ =~= rs.skip(offset as int).take(count as int));
            assert(small_residuals(partition@));
            assert(rs.skip(offset as int).skip(count as int) =~= rs.skip(offset + count));
        }
        let ghost before = writer.view();
        let param = find_best_rice_param(partition);
        writer.write_bits(param as u64, 4);
        write_rice_residuals(writer, partition, param);
        proof {
            let rest = partition_codes(
                rs.skip(offset + count),
                partition_size as int,
                partition_size as int,
                (num_partitions - i - 1) as nat,
            );
            assert(writer.view() + rest =~= before + (value_bits(param as u64, 4) + rice_codes(
                partition@,
                param,
            ) + rest));
        }
        offset = offset + count;
        i = i + 1;
    }
    proof {
        assert(writer.view() + Seq::<bool>::empty() =~= writer.view());
        assert(writer.view() =~= start + partitioned_codes(
            rs,
            predictor_order as int,
            partition_order,
        ));
    }
}

/// The bits of a coded residual block are as many as its estimate.
pub proof fn lemma_partitioned_codes_len(rs: Seq<i64>, predictor_order: int, o: u8)
    ensures
        partitioned_codes(rs, predictor_order, o).len() == partitioned_bits(rs, predictor_order, o),
{
    let size = spec_partition_size(rs.len() + predictor_order, o);
    lemma_partition_codes_len(rs, size - predictor_order, size, partition_count(o));
}

proof fn lemma_partition_codes_len(rs: Seq<i64>, first: int, size: int, n: nat)
    ensures
        partition_codes(rs, first, size, n).len() == partition_cost(rs, first, size, n),
    decreases n,
{
    if n > 0 {
        let c = rs.take(first);
        lemma_rice_codes_len(c, best_param(c));
        lemma_partition_codes_len(rs.skip(first), size, size, (n - 1) as nat);
    }
}

/// Partition order `o` may be used for a block of `block_size` samples whose
/// first `predictor_order` are warm-up samples.
pub open spec fn order_allowed(block_size: int, predictor_order: int, o: u8) -> bool {
    block_size % (partition_count(o) as int) == 0 && block_size / (partition_count(o) as int)
        > predictor_order
}

/// The scan over partition orders `0..n`: the first allowed order of least
/// estimate, with its estimate (`u64::MAX` when no order is allowed yet).
pub open spec fn best_order_scan(rs: Seq<i64>, predictor_order: int, block_size: int, n: nat) -> (
    u8,
    int,
)
    decreases n,
{
    if n == 0 {
        (0, 0xffff_ffff_ffff_ffff)
    } else {
        let (bo, bb) = best_order_scan(rs, predictor_order, block_size, (n - 1) as nat);
        let o = (n - 1) as u8;
        if order_allowed(block_size, predictor_order, o) && partitioned_bits(rs, predictor_order, o)
            < bb {
            (o, partitioned_bits(rs, predictor_order, o))
        } else {
            (bo, bb)
        }
    }
}

/// The partition order the encoder picks among `0..=max_order`.
pub open spec fn best_partition_order(
    rs: Seq<i64>,
    predictor_order: int,
    block_size: int,
    max_order: u8,
) -> u8 {
    best_order_scan(rs, predictor_order, block_size, (max_order + 1) as nat).0
}

proof fn lemma_allowed_is_usable(len: int, predictor_order: int, o: u8)
    requires
        o <= 15,
        len >= 0,
        predictor_order >= 0,
        order_allowed(len + predictor_order, predictor_order, o),
    ensures
        partition_order_usable(len, predictor_order, o),
{
}

proof fn lemma_best_order_scan(rs: Seq<i64>, predictor_order: int, block_size: int, n: nat)
    requires
        n <= 16,
        block_size == rs.len() + predictor_order,
        predictor_order >= 0,
        block_size > predictor_order,
    ensures
        best_order_scan(rs, predictor_order, block_size, n).0 < 16,
        partition_order_usable(
            rs.len() as int,
            predictor_order,
            best_order_scan(rs, predictor_order, block_size, n).0,
        ),
    decreases n,
{
    if n > 0 {
        lemma_best_order_scan(rs, predictor_order, block_size, (n - 1) as nat);
    } else {
        assert(1usize << 0u8 == 1) by (bit_vector);
        assert(partition_count(0) == 1);
        assert(spec_partition_size(block_size, 0) == block_size);
    }
}

/// The partition order, among `0..=max_order`, whose residual block is
/// estimated shortest (the first such; 0 when none fits the block).
pub fn find_best_partition_order(
    residuals: &[i64],
    predictor_order: usize,
    block_size: usize,
    max_order: u8,
) -> (r: u8)
    requires
        small_residuals(residuals@),
        residuals@.len() + predictor_order == block_size,
        block_size <= 0xFFFF_0000,
        block_size > predictor_order,
        max_order <= 15,
    ensures
        r == best_partition_order(residuals@, predictor_order as int, block_size as int, max_order),
        partition_order_usable(residuals@.len() as int, predictor_order as int, r),
{
    let ghost rs = residuals@;
    let mut best_order: u8 = 0;
    let mut best_bits: u64 = 0xffff_ffff_ffff_ffff;
    let mut order: u8 = 0;
    while order <= max_order
        invariant
            rs == residuals@,
            small_residuals(rs),
            rs.len() + predictor_order == block_size,
            block_size <= 0xFFFF_0000,
            block_size > predictor_order,
            max_order <= 15,
            order <= max_order + 1,
            (best_order, best_bits as int) == best_order_scan(
                rs,
                predictor_order as int,
                block_size as int,
                order as nat,
            ),
        decreases max_order + 1 - order,
    {
        proof {
            lemma_partition_count(order);
        }
        let num_partitions: usize = 1usize << order;
        if block_size % num_partitions != 0 {
            order = order + 1;
            continue;
        }
        let partition_size = block_size / num_partitions;
        if partition_size <= predictor_order {
            order = order + 1;
            continue;
        }
        proof {
            lemma_allowed_is_usable(rs.len() as int, predictor_order as int, order);
        }
        let bits = estimate_partitioned_rice_bits(residuals, predictor_order, order);
        if bits < best_bits {
            best_bits = bits;
            best_order = order;
        }
        order = order + 1;
    }
    proof {
        lemma_best_order_scan(rs, predictor_order as int, block_size as int, (max_order + 1) as nat);
    }
    best_order
}

pub proof fn lemma_partitioned_bits_bound(rs: Seq<i64>, predictor_order: int, o: u8)
    requires
        small_residuals(rs),
        rs.len() + predictor_order <= 0xFFFF_0000,
        predictor_order >= 0,
        partition_order_usable(rs.len() as int, predictor_order, o),
    ensures
        6 <= partitioned_bits(rs, predictor_order, o) <= 0xFFFF_0010_0000_0000,
{
    lemma_partition_count(o);
    lemma_partitions_fit(rs.len() as int, predictor_order, o);
    let size = spec_partition_size(rs.len() + predictor_order, o);
    lemma_partition_cost_bound(rs, size - predictor_order, size, partition_count(o));
    assert(rs.len() * 0x1_0000_0010 <= 0xFFFF_0000 * 0x1_0000_0010) by (nonlinear_arith)
        requires
            rs.len() <= 0xFFFF_0000,
    ;
}

/// Zig-zag folding loses nothing: distinct residuals fold to distinct codes,
/// and every code is a natural number.
pub proof fn lemma_zigzag_injective(a: int, b: int)
    ensures
        zigzag(a) >= 0,
        zigzag(a) == zigzag(b) ==> a == b,
{
}

proof fn lemma_order_scan_least(rs: Seq<i64>, predictor_order: int, block_size: int, n: nat)
    requires
        n <= 16,
        small_residuals(rs),
        block_size == rs.len() + predictor_order,
        block_size <= 0xFFFF_0000,
        predictor_order >= 0,
    ensures
        ({
            let (bo, bb) = best_order_scan(rs, predictor_order, block_size, n);
            if exists|o: u8| o < n && order_allowed(block_size, predictor_order, o) {
                &&& bo < n
                &&& order_allowed(block_size, predictor_order, bo)
                &&& bb == partitioned_bits(rs, predictor_order, bo)
                &&& forall|o: u8| o < n && order_allowed(block_size, predictor_order, o) ==> bb
                    <= partitioned_bits(rs, predictor_order, o)
                &&& forall|o: u8| o < bo && order_allowed(block_size, predictor_order, o) ==> bb
                    < partitioned_bits(rs, predictor_order, o)
            } else {
                bo == 0 && bb == 0xffff_ffff_ffff_ffff
            }
        }),
    decreases n,
{
    if n > 0 {
        let m = (n - 1) as nat;
        lemma_order_scan_least(rs, predictor_order, block_size, m);
        let o = m as u8;
        if order_allowed(block_size, predictor_order, o) {
            lemma_allowed_is_usable(rs.len() as int, predictor_order, o);
            lemma_partitioned_bits_bound(rs, predictor_order, o);
        }
        let (bo, bb) = best_order_scan(rs, predictor_order, block_size, m);
        if exists|q: u8| q < n && order_allowed(block_size, predictor_order, q) {
            if !(exists|q: u8| q < m && order_allowed(block_size, predictor_order, q)) {
                assert(order_allowed(block_size, predictor_order, o));
                assert forall|q: u8| q < n && order_allowed(block_size, predictor_order, q) implies q == o by {
                    if q < m {
                        assert(exists|q2: u8| q2 < m && order_allowed(block_size, predictor_order, q2));
                    }
                }
            }
        }
    }
}

/// The partition order the encoder picks is the least of the allowed orders
/// up to `max_order` whose estimate is smallest; when no order is allowed it
/// is 0.
pub proof fn lemma_best_partition_order_least(
    rs: Seq<i64>,
    predictor_order: int,
    block_size: int,
    max_order: u8,
)
    requires
        max_order <= 15,
        small_residuals(rs),
        block_size == rs.len() + predictor_order,
        block_size <= 0xFFFF_0000,
        predictor_order >= 0,
    ensures
        ({
            let r = best_partition_order(rs, predictor_order, block_size, max_order);
            if exists|o: u8| o <= max_order && order_allowed(block_size, predictor_order, o) {
                &&& r <= max_order
                &&& order_allowed(block_size, predictor_order, r)
                &&& forall|o: u8| o <= max_order && order_allowed(block_size, predictor_order, o)
                    ==> partitioned_bits(rs, predictor_order, r) <= partitioned_bits(rs, predictor_order, o)
                &&& forall|o: u8| o < r && order_allowed(block_size, predictor_order, o)
                    ==> partitioned_bits(rs, predictor_order, r) < partitioned_bits(rs, predictor_order, o)
            } else {
                r == 0
            }
        }),
{
    let n = (max_order + 1) as nat;
    lemma_order_scan_least(rs, predictor_order, block_size, n);
    if exists|o: u8| o <= max_order && order_allowed(block_size, predictor_order, o) {
        let w = choose|o: u8| o <= max_order && order_allowed(block_size, predictor_order, o);
        assert(w < n && order_allowed(block_size, predictor_order, w));
    } else {
        if exists|o: u8| o < n && order_allowed(block_size, predictor_order, o) {
            let w = choose|o: u8| o < n && order_allowed(block_size, predictor_order, o);
            assert(w <= max_order);
        }
    }
}

/// The number of one bits before the first zero bit.
pub open spec fn leading_ones(bits: Seq<bool>) -> nat
    decreases bits.len(),
{
    if bits.len() == 0 || !bits[0] {
        0
    } else {
        1 + leading_ones(bits.skip(1))
    }
}

/// The natural number that `bits` spell, most significant bit first.
pub open spec fn bits_value(bits: Seq<bool>) -> nat
    decreases bits.len(),
{
    if bits.len() == 0 {
        0
    } else {
        2 * bits_value(bits.drop_last()) + if bits.last() {
            1nat
        } else {
            0nat
        }
    }
}

/// The inverse of the zig-zag mapping.
pub open spec fn unzigzag(z: int) -> int {
    if z % 2 == 0 {
        z / 2
    } else {
        -((z + 1) / 2)
    }
}

/// Reads one residual coded with parameter `p` from the front of `bits`, in
/// the form the coder writes: the quotient in unary (ones ended by a zero),
/// then the `p` low bits. Gives the residual and the bits after it.
pub open spec fn read_rice(bits: Seq<bool>, p: nat) -> (int, Seq<bool>) {
    let q = leading_ones(bits);
    let after = bits.skip((q + 1) as int);
    (unzigzag((q * pow2(p) + bits_value(after.take(p as int))) as int), after.skip(p as int))
}

/// Reads `n` residuals coded with parameter `p`, one after another; gives
/// them and the bits after them.
pub open spec fn read_rices(bits: Seq<bool>, p: nat, n: nat) -> (Seq<int>, Seq<bool>)
    decreases n,
{
    if n == 0 {
        (Seq::empty(), bits)
    } else {
        let (r, rest) = read_rice(bits, p);
        let (tail, after) = read_rices(rest, p, (n - 1) as nat);
        (seq![r] + tail, after)
    }
}

/// Reads `n` partitions, the first of `first` residuals and every later one
/// of `size`: each a 4-bit parameter then its Rice codes.
pub open spec fn read_partitions(bits: Seq<bool>, first: int, size: int, n: nat) -> Seq<int>
    decreases n,
{
    if n == 0 {
        Seq::empty()
    } else {
        let p = bits_value(bits.take(4));
        let (rs, rest) = read_rices(bits.skip(4), p, first as nat);
        rs + read_partitions(rest, size, size, (n - 1) as nat)
    }
}

/// Reads a partitioned Rice residual block of a frame of `block_size` samples
/// whose predictor has order `predictor_order`, as the coder writes it: the
/// 2-bit method, the 4-bit partition order, then the partitions.
pub open spec fn read_partitioned(bits: Seq<bool>, predictor_order: int, block_size: int) -> Seq<int> {
    let o = bits_value(bits.subrange(2, 6)) as u8;
    let size = spec_partition_size(block_size, o);
    read_partitions(bits.skip(6), size - predictor_order, size, partition_count(o))
}

/// The residuals as numbers.
pub open spec fn residual_ints(rs: Seq<i64>) -> Seq<int> {
    Seq::new(rs.len(), |i: int| rs[i] as int)
}

proof fn lemma_leading_ones_unary(q: nat, rest: Seq<bool>)
    ensures
        leading_ones(unary_bits(q) + rest) == q,
    decreases q,
{
    let b = unary_bits(q) + rest;
    if q > 0 {
        assert(b.skip(1) =~= unary_bits((q - 1) as nat) + rest);
        lemma_leading_ones_unary((q - 1) as nat, rest);
    } else {
        assert(!b[0]);
    }
}

proof fn lemma_bits_value_of(b: Seq<bool>, v: nat)
    requires
        forall|i: int| 0 <= i < b.len() ==> #[trigger] b[i] == ((v / pow2((b.len() - 1 - i) as nat)) % 2 == 1),
    ensures
        bits_value(b) == v % pow2(b.len()),
    decreases b.len(),
{
    vstd::arithmetic::power2::lemma_pow2_pos(b.len());
    if b.len() == 0 {
        vstd::arithmetic::power2::lemma2_to64();
    } else {
        let n = b.len();
        let b1 = b.drop_last();
        let v1 = v / 2;
        assert forall|i: int| 0 <= i < b1.len() implies #[trigger] b1[i] == ((v1 / pow2((b1.len() - 1 - i) as nat)) % 2 == 1) by {
            let m = (b1.len() - 1 - i) as nat;
            assert(b[i] == ((v / pow2((n - 1 - i) as nat)) % 2 == 1));
            assert((n - 1 - i) as nat == m + 1);
            vstd::arithmetic::power2::lemma_pow2_unfold(m + 1);
            vstd::arithmetic::power2::lemma_pow2_pos(m);
            vstd::arithmetic::div_mod::lemma_div_denominator(v as int, 2, pow2(m) as int);
            assert(2 * pow2(m) == pow2(m + 1));
        }
        lemma_bits_value_of(b1, v1);
        assert(b[n - 1] == ((v / pow2(0)) % 2 == 1));
        vstd::arithmetic::power2::lemma2_to64();
        vstd::arithmetic::power2::lemma_pow2_unfold(n);
        vstd::arithmetic::power2::lemma_pow2_pos((n - 1) as nat);
        vstd::arithmetic::div_mod::lemma_mod_breakdown(v as int, 2, pow2((n - 1) as nat) as int);
    }
}

proof fn lemma_low_bit(y: u64)
    by (bit_vector)
    ensures
        (y & 1 == 1) == (y % 2 == 1),
{
}

proof fn lemma_value_bits_value(v: u64, n: nat)
    requires
        n <= 64,
    ensures
        bits_value(value_bits(v, n)) == (v as nat) % pow2(n),
{
    let b = value_bits(v, n);
    assert forall|i: int| 0 <= i < b.len() implies #[trigger] b[i] == (((v as nat) / pow2((b.len() - 1 - i) as nat)) % 2 == 1) by {
        let k = (n - 1 - i) as u64;
        vstd::bits::lemma_u64_shr_is_div(v, k);
        lemma_low_bit(v >> k);
    }
    lemma_bits_value_of(b, v as nat);
}

/// A Rice code read back with the same parameter gives the residual, and
/// leaves the bits after it untouched.
pub proof fn lemma_read_rice_code(r: i64, p: u8, rest: Seq<bool>)
    requires
        small_residual(r),
        p < 64,
    ensures
        read_rice(rice_code(r, p) + rest, p as nat) == (r as int, rest),
{
    let z = zigzag(r as int) as u64;
    assert(zigzag(r as int) == z);
    let q = (z >> (p as u64)) as nat;
    vstd::bits::lemma_u64_shr_is_div(z, p as u64);
    vstd::arithmetic::power2::lemma_pow2_pos(p as nat);
    let bits = rice_code(r, p) + rest;
    assert(bits =~= unary_bits(q) + (value_bits(z, p as nat) + rest));
    lemma_leading_ones_unary(q, value_bits(z, p as nat) + rest);
    let after = bits.skip((q + 1) as int);
    assert(after =~= value_bits(z, p as nat) + rest);
    assert(after.take(p as int) =~= value_bits(z, p as nat));
    assert(after.skip(p as int) =~= rest);
    lemma_value_bits_value(z, p as nat);
    vstd::arithmetic::div_mod::lemma_fundamental_div_mod(z as int, pow2(p as nat) as int);
    assert(q * pow2(p as nat) + bits_value(after.take(p as int)) == z) by (nonlinear_arith)
        requires
            q == (z as nat) / pow2(p as nat),
            bits_value(after.take(p as int)) == (z as nat) % pow2(p as nat),
            z as int == (pow2(p as nat) as int) * ((z as int) / (pow2(p as nat) as int)) + (z as int) % (pow2(p as nat) as int),
    ;
}

proof fn lemma_rice_codes_front(rs: Seq<i64>, p: u8)
    requires
        rs.len() > 0,
    ensures
        rice_codes(rs, p) == rice_code(rs[0], p) + rice_codes(rs.skip(1), p),
    decreases rs.len(),
{
    if rs.len() == 1 {
        assert(rs.drop_last().len() == 0);
        assert(rice_codes(rs.drop_last(), p) == Seq::<bool>::empty());
        assert(rs.last() == rs[0]);
        assert(rs.skip(1).len() == 0);
        assert(rice_codes(rs.skip(1), p) == Seq::<bool>::empty());
        assert(rice_codes(rs, p) =~= rice_code(rs[0], p));
        assert(rice_code(rs[0], p) + rice_codes(rs.skip(1), p) =~= rice_code(rs[0], p));
    } else {
        lemma_rice_codes_front(rs.drop_last(), p);
        assert(rs.drop_last().skip(1) =~= rs.skip(1).drop_last());
        assert(rs.skip(1).last() == rs.last());
        assert(rs.drop_last()[0] == rs[0]);
        assert(rice_codes(rs, p) =~= rice_code(rs[0], p) + rice_codes(rs.skip(1), p));
    }
}

/// Rice coding loses nothing: reading back as many residuals as were coded,
/// with the same parameter, gives the residuals and leaves what follows.
pub proof fn lemma_read_rice_codes(rs: Seq<i64>, p: u8, rest: Seq<bool>)
    requires
        small_residuals(rs),
        p < 64,
    ensures
        read_rices(rice_codes(rs, p) + rest, p as nat, rs.len()) == (residual_ints(rs), rest),
    decreases rs.len(),
{
    if rs.len() == 0 {
        assert(rice_codes(rs, p) + rest =~= rest);
        assert(residual_ints(rs) =~= Seq::<int>::empty());
    } else {
        lemma_rice_codes_front(rs, p);
        assert(small_residual(rs[0]));
        let tail = rice_codes(rs.skip(1), p) + rest;
        assert(rice_codes(rs, p) + rest =~= rice_code(rs[0], p) + tail);
        lemma_read_rice_code(rs[0], p, tail);
        assert(small_residuals(rs.skip(1))) by {
            assert forall|i: int| 0 <= i < rs.skip(1).len() implies small_residual(#[trigger] rs.skip(1)[i]) by {
                assert(rs.skip(1)[i] == rs[i + 1]);
            }
        }
        lemma_read_rice_codes(rs.skip(1), p, rest);
        assert(seq![rs[0] as int] + residual_ints(rs.skip(1)) =~= residual_ints(rs));
    }
}

/// `n` partitions, the first of `first` residuals and every later one of
/// `size`, cover exactly `len` residuals.
pub open spec fn chunks_exact(len: int, first: int, size: int, n: nat) -> bool
    decreases n,
{
    if n == 0 {
        len == 0
    } else {
        0 <= first <= len && chunks_exact(len - first, size, size, (n - 1) as nat)
    }
}

proof fn lemma_chunks_exact(first: int, size: int, n: nat)
    requires
        n >= 1,
        first >= 0,
        size >= 0,
    ensures
        chunks_exact(first + (n - 1) * size, first, size, n),
    decreases n,
{
    if n > 1 {
        lemma_chunks_exact(size, size, (n - 1) as nat);
        assert(first + (n - 1) * size - first == size + (n - 2) * size) by (nonlinear_arith)
            requires
                n > 1,
        ;
        assert(first + (n - 1) * size >= first) by (nonlinear_arith)
            requires
                n >= 1,
                size >= 0,
        ;
    } else {
        assert((n - 1) * size == 0) by (nonlinear_arith)
            requires
                n == 1,
        ;
        assert(chunks_exact(0, size, size, 0));
    }
}

proof fn lemma_read_partitions(rs: Seq<i64>, first: int, size: int, n: nat)
    requires
        small_residuals(rs),
        chunks_exact(rs.len() as int, first, size, n),
    ensures
        read_partitions(partition_codes(rs, first, size, n), first, size, n) == residual_ints(rs),
    decreases n,
{
    if n == 0 {
        assert(residual_ints(rs) =~= Seq::<int>::empty());
    } else {
        let c = rs.take(first);
        let bp = best_param(c);
        lemma_best_param_upto_range(c, 14);
        let later = partition_codes(rs.skip(first), size, size, (n - 1) as nat);
        let bits = partition_codes(rs, first, size, n);
        assert(bits =~= value_bits(bp as u64, 4) + (rice_codes(c, bp) + later));
        assert(bits.take(4) =~= value_bits(bp as u64, 4));
        lemma_value_bits_value(bp as u64, 4);
        vstd::arithmetic::power2::lemma2_to64();
        assert(bits_value(bits.take(4)) == bp);
        assert(bits.skip(4) =~= rice_codes(c, bp) + later);
        assert(small_residuals(c)) by {
            assert forall|i: int| 0 <= i < c.len() implies small_residual(#[trigger] c[i]) by {
                assert(c[i] == rs[i]);
            }
        }
        lemma_read_rice_codes(c, bp, later);
        assert(c.len() == first);
        assert(small_residuals(rs.skip(first))) by {
            assert forall|i: int| 0 <= i < rs.skip(first).len() implies small_residual(#[trigger] rs.skip(first)[i]) by {
                assert(rs.skip(first)[i] == rs[i + first]);
            }
        }
        lemma_read_partitions(rs.skip(first), size, size, (n - 1) as nat);
        assert(residual_ints(c) + residual_ints(rs.skip(first)) =~= residual_ints(rs));
    }
}

/// A partitioned Rice residual block read back gives the residuals, for every
/// partition order the encoder may pick: one that splits the block evenly
/// into partitions each longer than the predictor order.
pub proof fn lemma_read_partitioned(rs: Seq<i64>, predictor_order: int, o: u8)
    requires
        small_residuals(rs),
        predictor_order >= 0,
        o <= 15,
        order_allowed(rs.len() + predictor_order, predictor_order, o),
    ensures
        read_partitioned(partitioned_codes(rs, predictor_order, o), predictor_order, rs.len() + predictor_order)
            == residual_ints(rs),
{
    let total = rs.len() + predictor_order;
    let count = partition_count(o);
    lemma_partition_count(o);
    let size = spec_partition_size(total, o);
    let bits = partitioned_codes(rs, predictor_order, o);
    let parts = partition_codes(rs, size - predictor_order, size, count);
    assert(bits =~= value_bits(0, 2) + value_bits(o as u64, 4) + parts);
    assert(bits.subrange(2, 6) =~= value_bits(o as u64, 4));
    lemma_value_bits_value(o as u64, 4);
    vstd::arithmetic::power2::lemma2_to64();
    assert(bits_value(bits.subrange(2, 6)) == o);
    assert(bits.skip(6) =~= parts);
    assert(total == size * count) by (nonlinear_arith)
        requires
            total % (count as int) == 0,
            size == total / (count as int),
            count >= 1,
    ;
    assert(rs.len() == (size - predictor_order) + (count - 1) * size) by (nonlinear_arith)
        requires
            total == size * count,
            total == rs.len() + predictor_order,
    ;
    lemma_chunks_exact(size - predictor_order, size, count);
    lemma_read_partitions(rs, size - predictor_order, size, count);
}

} // verus!
