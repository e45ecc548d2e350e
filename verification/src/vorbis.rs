//! Vorbis comment metadata shared by Ogg Opus and native FLAC.
use vstd::prelude::*;
use vstd::string::StringExecFns;
use vstd::utf8::encode_utf8;

use crate::bits::{le32, push_all, push_le32};

verus! {

/// ASCII lower case of a byte; other bytes are unchanged.
pub open spec fn ascii_lower(c: u8) -> u8 {
    if 0x41 <= c <= 0x5A {
        (c + 0x20) as u8
    } else {
        c
    }
}

/// Two byte strings are equal up to ASCII case.
pub open spec fn eq_ascii_ci(a: Seq<u8>, b: Seq<u8>) -> bool {
    a.len() == b.len() && forall|i: int| 0 <= i < a.len() ==> ascii_lower(#[trigger] a[i])
        == ascii_lower(b[i])
}

/// The field name of an entry matches `field` up to ASCII case.
pub open spec fn key_matches(e: (Seq<char>, Seq<char>), field: Seq<char>) -> bool {
    eq_ascii_ci(encode_utf8(e.0), encode_utf8(field))
}

/// The index of the first entry whose field name matches `field`.
pub open spec fn first_match(es: Seq<(Seq<char>, Seq<char>)>, field: Seq<char>) -> Option<int>
    decreases es.len(),
{
    if es.len() == 0 {
        None
    } else {
        match first_match(es.drop_last(), field) {
            Some(i) => Some(i),
            None => if key_matches(es.last(), field) {
                Some(es.len() - 1)
            } else {
                None
            },
        }
    }
}

/// The values of all entries whose field name matches `field`, in order.
pub open spec fn all_matches(es: Seq<(Seq<char>, Seq<char>)>, field: Seq<char>) -> Seq<Seq<char>>
    decreases es.len(),
{
    if es.len() == 0 {
        Seq::empty()
    } else if key_matches(es.last(), field) {
        all_matches(es.drop_last(), field).push(es.last().1)
    } else {
        all_matches(es.drop_last(), field)
    }
}

/// The wire form `FIELD=value` of an entry.
pub open spec fn raw_comment(e: (Seq<char>, Seq<char>)) -> Seq<char> {
    e.0 + seq!['='] + e.1
}

/// The UTF-8 bytes of the wire form of an entry.
pub open spec fn comment_bytes(e: (Seq<char>, Seq<char>)) -> Seq<u8> {
    encode_utf8(e.0) + seq![0x3du8] + encode_utf8(e.1)
}

/// Every entry, each as its 32-bit length then its bytes.
pub open spec fn entries_block(es: Seq<(Seq<char>, Seq<char>)>) -> Seq<u8>
    decreases es.len(),
{
    if es.len() == 0 {
        Seq::empty()
    } else {
        entries_block(es.drop_last()) + le32(comment_bytes(es.last()).len() as u32) + comment_bytes(
            es.last(),
        )
    }
}

/// The comment block: vendor length and vendor, entry count, entries.
pub open spec fn comments_block(vendor: Seq<char>, es: Seq<(Seq<char>, Seq<char>)>) -> Seq<u8> {
    le32(encode_utf8(vendor).len() as u32) + encode_utf8(vendor) + le32(es.len() as u32)
        + entries_block(es)
}

/// The total size of the entries of a block.
pub open spec fn entries_len(es: Seq<(Seq<char>, Seq<char>)>) -> int
    decreases es.len(),
{
    if es.len() == 0 {
        0
    } else {
        entries_len(es.drop_last()) + 4 + comment_bytes(es.last()).len()
    }
}

/// Every length of the block fits its 32-bit field, and the block fits in memory.
pub open spec fn encodable(vendor: Seq<char>, es: Seq<(Seq<char>, Seq<char>)>) -> bool {
    &&& encode_utf8(vendor).len() <= 0xffff_ffff
    &&& es.len() <= 0xffff_ffff
    &&& forall|i: int| 0 <= i < es.len() ==> (#[trigger] comment_bytes(es[i])).len() <= 0xffff_ffff
    &&& 8 + encode_utf8(vendor).len() + entries_len(es) <= usize::MAX
}

/// The wire form `FIELD=value` of a field and a value.
fn join_field(field: &str, value: &str) -> (r: String)
    ensures
        r@ == field@ + seq!['='] + value@,
{
    let mut out = String::from_str(field);
    let sep = "=";
    proof {
        reveal_strlit("=");
    }
    out.append(sep);
    out.append(value);
    out
}

/// Compares two strings byte by byte up to ASCII case.
pub fn eq_ignore_ascii_case(a: &str, b: &str) -> (r: bool)
    ensures
        r == eq_ascii_ci(encode_utf8(a@), encode_utf8(b@)),
{
    let x = a.as_bytes();
    let y = b.as_bytes();
    if x.len() != y.len() {
        return false;
    }
    let mut i: usize = 0;
    while i < x.len()
        invariant
            x@ == encode_utf8(a@),
            y@ == encode_utf8(b@),
            x@.len() == y@.len(),
            i <= x@.len(),
            forall|j: int| 0 <= j < i ==> ascii_lower(#[trigger] x@[j]) == ascii_lower(y@[j]),
        decreases x@.len() - i,
    {
        let cx = x[i];
        let cy = y[i];
        let lx: u8 = if 0x41 <= cx && cx <= 0x5A {
            cx + 0x20
        } else {
            cx
        };
        let ly: u8 = if 0x41 <= cy && cy <= 0x5A {
            cy + 0x20
        } else {
            cy
        };
        if lx != ly {
            return false;
        }
        i = i + 1;
    }
    true
}

/// Vorbis comment metadata: a vendor string and `FIELD=value` entries in
/// insertion order. Field names compare case-insensitively (ASCII).
#[derive(Clone, Debug, Default, PartialEq, Eq)]
pub struct VorbisComments {
    vendor: String,
    entries: Vec<(String, String)>,
}

impl VorbisComments {
    pub closed spec fn spec_vendor(&self) -> Seq<char> {
        self.vendor@
    }

    pub closed spec fn spec_entries(&self) -> Seq<(Seq<char>, Seq<char>)> {
        Seq::new(self.entries@.len(), |i: int| (self.entries@[i].0@, self.entries@[i].1@))
    }

    /// A block with vendor `vendor` and no entries.
    pub fn new(vendor: &str) -> (r: Self)
        ensures
            r.spec_vendor() == vendor@,
            r.spec_entries().len() == 0,
    {
        VorbisComments { vendor: vendor.to_owned(), entries: Vec::new() }
    }

    pub fn vendor(&self) -> (r: &str)
        ensures
            r@ == self.spec_vendor(),
    {
        self.vendor.as_str()
    }

    pub fn set_vendor(&mut self, vendor: &str)
        ensures
            final(self).spec_vendor() == vendor@,
            final(self).spec_entries() == old(self).spec_entries(),
    {
        self.vendor = vendor.to_owned();
        proof {
            assert(final(self).spec_entries() =~= old(self).spec_entries());
        }
    }

    /// Appends an entry; a field may occur several times.
    pub fn add(&mut self, field: &str, value: &str)
        ensures
            final(self).spec_vendor() == old(self).spec_vendor(),
            final(self).spec_entries() == old(self).spec_entries().push((field@, value@)),
    {
        self.entries.push((field.to_owned(), value.to_owned()));
        proof {
            assert(final(self).spec_entries() =~= old(self).spec_entries().push((field@, value@)));
        }
    }

    /// The value of the first entry whose field name matches `field`.
    pub fn get(&self, field: &str) -> (r: Option<&str>)
        ensures
            match first_match(self.spec_entries(), field@) {
                Some(i) => r is Some && r->0@ == self.spec_entries()[i].1,
                None => r is None,
            },
    {
        let ghost es = self.spec_entries();
        let mut i: usize = 0;
        while i < self.entries.len()
            invariant
                es == self.spec_entries(),
                i <= es.len(),
                first_match(es.take(i as int), field@) is None,
            decreases es.len() - i,
        {
            proof {
                assert(es.take(i + 1).drop_last() =~= es.take(i as int));
            }
            if eq_ignore_ascii_case(self.entries[i].0.as_str(), field) {
                proof {
                    lemma_first_match_prefix(es, field@, (i + 1) as int);
                }
                return Some(self.entries[i].1.as_str());
            }
            i = i + 1;
        }
        proof {
            assert(es.take(i as int) =~= es);
        }
        None
    }

    /// The values of every entry whose field name matches `field`, in order.
    pub fn get_all(&self, field: &str) -> (r: Vec<&str>)
        ensures
            r@.len() == all_matches(self.spec_entries(), field@).len(),
            forall|k: int| 0 <= k < r@.len() ==> (#[trigger] r@[k])@ == all_matches(
                self.spec_entries(),
                field@,
            )[k],
    {
        let ghost es = self.spec_entries();
        let mut out: Vec<&str> = Vec::new();
        let mut i: usize = 0;
        while i < self.entries.len()
            invariant
                es == self.spec_entries(),
                i <= es.len(),
                out@.len() == all_matches(es.take(i as int), field@).len(),
                forall|k: int| 0 <= k < out@.len() ==> (#[trigger] out@[k])@ == all_matches(
                    es.take(i as int),
                    field@,
                )[k],
            decreases es.len() - i,
        {
            proof {
                assert(es.take(i + 1).drop_last() =~= es.take(i as int));
            }
            if eq_ignore_ascii_case(self.entries[i].0.as_str(), field) {
                out.push(self.entries[i].1.as_str());
            }
            i = i + 1;
        }
        proof {
            assert(es.take(i as int) =~= es);
        }
        out
    }

    /// Every `(field, value)` pair in insertion order.
    pub fn iter(&self) -> (r: Vec<(&str, &str)>)
        ensures
            r@.len() == self.spec_entries().len(),
            forall|k: int| 0 <= k < r@.len() ==> (#[trigger] r@[k]).0@ == self.spec_entries()[k].0
                && r@[k].1@ == self.spec_entries()[k].1,
    {
        let mut out: Vec<(&str, &str)> = Vec::new();
        let mut i: usize = 0;
        while i < self.entries.len()
            invariant
                i <= self.entries@.len(),
                out@.len() == i,
                forall|k: int| 0 <= k < i ==> (#[trigger] out@[k]).0@ == self.spec_entries()[k].0
                    && out@[k].1@ == self.spec_entries()[k].1,
            decreases self.entries@.len() - i,
        {
            out.push((self.entries[i].0.as_str(), self.entries[i].1.as_str()));
            i = i + 1;
        }
        out
    }

    pub fn len(&self) -> (r: usize)
        ensures
            r == self.spec_entries().len(),
    {
        self.entries.len()
    }

    pub fn is_empty(&self) -> (r: bool)
        ensures
            r == (self.spec_entries().len() == 0),
    {
        self.entries.len() == 0
    }

    /// The wire strings `FIELD=value`, in order.
    pub fn to_raw_strings(&self) -> (r: Vec<String>)
        ensures
            r@.len() == self.spec_entries().len(),
            forall|k: int| 0 <= k < r@.len() ==> (#[trigger] r@[k])@ == raw_comment(
                self.spec_entries()[k],
            ),
    {
        let mut out: Vec<String> = Vec::new();
        let mut i: usize = 0;
        while i < self.entries.len()
            invariant
                i <= self.entries@.len(),
                out@.len() == i,
                forall|k: int| 0 <= k < i ==> (#[trigger] out@[k])@ == raw_comment(
                    self.spec_entries()[k],
                ),
            decreases self.entries@.len() - i,
        {
            out.push(join_field(self.entries[i].0.as_str(), self.entries[i].1.as_str()));
            i = i + 1;
        }
        out
    }

    /// The comment block without framing (all lengths little-endian 32-bit),
    /// or `None` when a length does not fit its field.
    pub fn encode(&self) -> (r: Option<Vec<u8>>)
        ensures
            encodable(self.spec_vendor(), self.spec_entries()) <==> r is Some,
            r is Some ==> r->0@ == comments_block(self.spec_vendor(), self.spec_entries()),
    {
        let ghost es = self.spec_entries();
        let vendor_bytes = self.vendor.as_str().as_bytes();
        if vendor_bytes.len() > 0xffff_ffff {
            return None;
        }
        if self.entries.len() > 0xffff_ffff {
            return None;
        }
        proof {
            assert(es.len() == self.entries@.len());
        }
        let mut capacity: usize = 8;
        if vendor_bytes.len() > usize::MAX - 8 {
            proof {
                lemma_entries_len_grows(es, 0);
            }
            return None;
        }
        capacity = capacity + vendor_bytes.len();
        let mut i: usize = 0;
        while i < self.entries.len()
            invariant
                es == self.spec_entries(),
                i <= es.len(),
                vendor_bytes@ == encode_utf8(self.spec_vendor()),
                capacity == 8 + vendor_bytes@.len() + entries_len(es.take(i as int)),
            decreases es.len() - i,
        {
            let k = self.entries[i].0.as_str().as_bytes();
            let v = self.entries[i].1.as_str().as_bytes();
            proof {
                assert(es.take(i + 1).drop_last() =~= es.take(i as int));
                assert(es[i as int] == (self.entries@[i as int].0@, self.entries@[i as int].1@));
            }
            if k.len() > usize::MAX - 5 || v.len() > usize::MAX - 5 - k.len() {
                proof {
                    lemma_entries_len_grows(es, (i + 1) as int);
                }
                return None;
            }
            let n = 5 + k.len() + v.len();
            if capacity > usize::MAX - n {
                proof {
                    lemma_entries_len_grows(es, (i + 1) as int);
                }
                return None;
            }
            capacity = capacity + n;
            i = i + 1;
        }
        proof {
            assert(es.take(i as int) =~= es);
        }
        let mut buf: Vec<u8> = Vec::with_capacity(capacity);
        push_le32(&mut buf, vendor_bytes.len() as u32);
        push_all(&mut buf, vendor_bytes);
        push_le32(&mut buf, self.entries.len() as u32);
        let ghost head = buf@;
        let mut j: usize = 0;
        proof {
            assert(es.take(0) =~= Seq::<(Seq<char>, Seq<char>)>::empty());
            assert(head + entries_block(es.take(0)) =~= head);
        }
        while j < self.entries.len()
            invariant
                es == self.spec_entries(),
                j <= es.len(),
                head == le32(encode_utf8(self.spec_vendor()).len() as u32) + encode_utf8(
                    self.spec_vendor(),
                ) + le32(es.len() as u32),
                buf@ == head + entries_block(es.take(j as int)),
                forall|q: int| 0 <= q < j ==> (#[trigger] comment_bytes(es[q])).len() <= 0xffff_ffff,
            decreases es.len() - j,
        {
            let k = self.entries[j].0.as_str().as_bytes();
            let v = self.entries[j].1.as_str().as_bytes();
            proof {
                assert(es.take(j + 1).drop_last() =~= es.take(j as int));
                assert(es[j as int] == (self.entries@[j as int].0@, self.entries@[j as int].1@));
                assert(comment_bytes(es[j as int]).len() == k@.len() + 1 + v@.len());
            }
            if k.len() >= 0xffff_ffff || v.len() > 0xffff_ffff - 1 - k.len() {
                proof {
                    assert(!encodable(self.spec_vendor(), es));
                }
                return None;
            }
            let len = (k.len() + 1 + v.len()) as u32;
            push_le32(&mut buf, len);
            push_all(&mut buf, k);
            buf.push(0x3d);
            push_all(&mut buf, v);
            proof {
                assert(buf@ =~= head + entries_block(es.take(j + 1)));
            }
            j = j + 1;
        }
        proof {
            assert(es.take(j as int) =~= es);
            assert(buf@ =~= comments_block(self.spec_vendor(), es));
        }
        Some(buf)
    }
}

proof fn lemma_first_match_prefix(es: Seq<(Seq<char>, Seq<char>)>, field: Seq<char>, n: int)
    requires
        1 <= n <= es.len(),
        first_match(es.take(n - 1), field) is None,
        key_matches(es[n - 1], field),
    ensures
        first_match(es, field) == Some(n - 1),
    decreases es.len() - n,
{
    if n == es.len() {
        assert(es.drop_last() =~= es.take(n - 1));
    } else {
        assert(es.drop_last().take(n - 1) =~= es.take(n - 1));
        assert(es.drop_last()[n - 1] == es[n - 1]);
        lemma_first_match_prefix(es.drop_last(), field, n);
    }
}

proof fn lemma_entries_len_grows(es: Seq<(Seq<char>, Seq<char>)>, n: int)
    requires
        0 <= n <= es.len(),
    ensures
        entries_len(es) >= entries_len(es.take(n)),
    decreases es.len() - n,
{
    if n < es.len() {
        lemma_entries_len_grows(es.drop_last(), n);
        assert(es.drop_last().take(n) =~= es.take(n));
    } else {
        assert(es.take(n) =~= es);
    }
}


/// Adding an entry appends its value to the lookup of every field name that
/// matches it, and leaves the lookup of every other field name as it was.
pub proof fn lemma_add_extends_lookup(
    es: Seq<(Seq<char>, Seq<char>)>,
    field: Seq<char>,
    value: Seq<char>,
    query: Seq<char>,
)
    ensures
        all_matches(es.push((field, value)), query) == if key_matches((field, value), query) {
            all_matches(es, query).push(value)
        } else {
            all_matches(es, query)
        },
        first_match(es.push((field, value)), query) == match first_match(es, query) {
            Some(i) => Some(i),
            None => if key_matches((field, value), query) {
                Some(es.len() as int)
            } else {
                None
            },
        },
{
    assert(es.push((field, value)).drop_last() =~= es);
}

proof fn lemma_lower_eq_trans(a: Seq<u8>, b: Seq<u8>, c: Seq<u8>)
    requires
        eq_ascii_ci(a, b),
    ensures
        eq_ascii_ci(a, c) == eq_ascii_ci(b, c),
{
    if eq_ascii_ci(b, c) {
        assert forall|i: int| 0 <= i < a.len() implies ascii_lower(#[trigger] a[i]) == ascii_lower(c[i]) by {
            assert(ascii_lower(a[i]) == ascii_lower(b[i]));
            assert(ascii_lower(b[i]) == ascii_lower(c[i]));
        }
    }
    if eq_ascii_ci(a, c) {
        assert forall|i: int| 0 <= i < b.len() implies ascii_lower(#[trigger] b[i]) == ascii_lower(c[i]) by {
            assert(ascii_lower(a[i]) == ascii_lower(b[i]));
            assert(ascii_lower(a[i]) == ascii_lower(c[i]));
        }
    }
}

/// Lookups ignore ASCII case: two field names that differ only in the case
/// of ASCII letters find the same entries, first and all.
pub proof fn lemma_lookup_ignores_case(es: Seq<(Seq<char>, Seq<char>)>, f: Seq<char>, g: Seq<char>)
    requires
        eq_ascii_ci(encode_utf8(f), encode_utf8(g)),
    ensures
        all_matches(es, f) == all_matches(es, g),
        first_match(es, f) == first_match(es, g),
    decreases es.len(),
{
    if es.len() > 0 {
        lemma_lookup_ignores_case(es.drop_last(), f, g);
        let k = encode_utf8(es.last().0);
        assert(eq_ascii_ci(encode_utf8(g), encode_utf8(f))) by {
            assert forall|i: int| 0 <= i < encode_utf8(g).len() implies ascii_lower(
                #[trigger] encode_utf8(g)[i],
            ) == ascii_lower(encode_utf8(f)[i]) by {
                assert(ascii_lower(encode_utf8(f)[i]) == ascii_lower(encode_utf8(g)[i]));
            }
        }
        lemma_lower_eq_trans(encode_utf8(f), encode_utf8(g), k);
        assert(eq_ascii_ci(k, encode_utf8(f)) == eq_ascii_ci(encode_utf8(f), k)) by {
            if eq_ascii_ci(k, encode_utf8(f)) {
                assert forall|i: int| 0 <= i < encode_utf8(f).len() implies ascii_lower(
                    #[trigger] encode_utf8(f)[i],
                ) == ascii_lower(k[i]) by {
                    assert(ascii_lower(k[i]) == ascii_lower(encode_utf8(f)[i]));
                }
            }
            if eq_ascii_ci(encode_utf8(f), k) {
                assert forall|i: int| 0 <= i < k.len() implies ascii_lower(#[trigger] k[i]) == ascii_lower(
                    encode_utf8(f)[i],
                ) by {
                    assert(ascii_lower(encode_utf8(f)[i]) == ascii_lower(k[i]));
                }
            }
        }
        assert(eq_ascii_ci(k, encode_utf8(g)) == eq_ascii_ci(encode_utf8(g), k)) by {
            if eq_ascii_ci(k, encode_utf8(g)) {
                assert forall|i: int| 0 <= i < encode_utf8(g).len() implies ascii_lower(
                    #[trigger] encode_utf8(g)[i],
                ) == ascii_lower(k[i]) by {
                    assert(ascii_lower(k[i]) == ascii_lower(encode_utf8(g)[i]));
                }
            }
            if eq_ascii_ci(encode_utf8(g), k) {
                assert forall|i: int| 0 <= i < k.len() implies ascii_lower(#[trigger] k[i]) == ascii_lower(
                    encode_utf8(g)[i],
                ) by {
                    assert(ascii_lower(encode_utf8(g)[i]) == ascii_lower(k[i]));
                }
            }
        }
        assert(key_matches(es.last(), f) == key_matches(es.last(), g));
    }
}

} // verus!
