//! The tag block: an array of (name, value) byte-string records, written as
//! blocks of records. Each block starts with a zig-zag varint item count (a
//! negative count is followed by the block's byte size); a zero count ends
//! the array. Each byte string is prefixed by its zig-zag varint length.
//! A varint takes at most ten bytes and is read modulo 2^64; byte-string
//! lengths and block counts above 512 MiB are refused.
use vstd::prelude::*;
use vstd::utf8::{decode_utf8, valid_utf8};
use crate::codec::utf8_to_string;
use crate::error::{parsing_error, IndexerError};
use crate::models::{tags_view, Tag};

verus! {

/// The largest byte-string length and block count accepted.
pub const MAX_LEN: u64 = 512 * 1024 * 1024;

/// The raw value of the base-128 varint starting at `p`, continued from its
/// `i`-th byte, where `acc` is the value of the bytes before it and `mul` the
/// weight of the next one; with the position just after it. A varint holds
/// at most ten bytes.
pub open spec fn varint_from(b: Seq<u8>, p: int, i: nat, acc: nat, mul: nat) -> Option<(nat, int)>
    decreases 10 - i,
{
    if i >= 10 || p < 0 || p + i >= b.len() {
        None
    } else {
        let d = b[p + i];
        let acc2 = acc + (d % 128) as nat * mul;
        if d < 128 {
            Some((acc2, p + i + 1))
        } else {
            varint_from(b, p, i + 1, acc2, mul * 128)
        }
    }
}

/// The signed integer that a zig-zag encoded value stands for.
pub open spec fn unzigzag(n: nat) -> int {
    if n % 2 == 0 {
        (n / 2) as int
    } else {
        -(((n + 1) / 2) as int)
    }
}

/// The zig-zag encoded 64-bit long at `p`, and the position after it; bits
/// of the varint beyond the 64th are dropped.
pub open spec fn read_long(b: Seq<u8>, p: int) -> Option<(int, int)> {
    match varint_from(b, p, 0, 0, 1) {
        Some((v, q)) => Some((unzigzag(v % 0x1_0000_0000_0000_0000), q)),
        None => None,
    }
}

/// The length-prefixed byte string at `p`, and the position after it.
pub open spec fn read_byte_string(b: Seq<u8>, p: int) -> Option<(Seq<u8>, int)> {
    match read_long(b, p) {
        Some((n, q)) => if n < 0 || n > MAX_LEN || q + n > b.len() {
            None
        } else {
            Some((b.subrange(q, q + n), q + n))
        },
        None => None,
    }
}

/// The (name, value) record at `p`, and the position after it.
pub open spec fn read_pair(b: Seq<u8>, p: int) -> Option<((Seq<u8>, Seq<u8>), int)> {
    match read_byte_string(b, p) {
        Some((name, q)) => match read_byte_string(b, q) {
            Some((value, r)) => Some(((name, value), r)),
            None => None,
        },
        None => None,
    }
}

/// Reads `k` records from `p` on, appended to `acc`.
pub open spec fn read_pairs(b: Seq<u8>, p: int, k: nat, acc: Seq<(Seq<u8>, Seq<u8>)>) -> Option<
    (Seq<(Seq<u8>, Seq<u8>)>, int),
>
    decreases k,
{
    if k == 0 {
        Some((acc, p))
    } else {
        match read_pair(b, p) {
            Some((t, q)) => read_pairs(b, q, (k - 1) as nat, acc.push(t)),
            None => None,
        }
    }
}

/// Reads blocks from `p` on up to the terminating empty block, their records
/// appended to `acc`; `fuel` bounds the number of blocks.
pub open spec fn read_blocks(b: Seq<u8>, p: int, fuel: nat, acc: Seq<(Seq<u8>, Seq<u8>)>) -> Option<
    (Seq<(Seq<u8>, Seq<u8>)>, int),
>
    decreases fuel,
{
    if fuel == 0 {
        None
    } else {
        match read_long(b, p) {
            None => None,
            Some((c, q)) => if c == 0 {
                Some((acc, q))
            } else if c > MAX_LEN || -c > MAX_LEN {
                None
            } else if c > 0 {
                match read_pairs(b, q, c as nat, acc) {
                    Some((acc2, r)) => read_blocks(b, r, (fuel - 1) as nat, acc2),
                    None => None,
                }
            } else {
                match read_long(b, q) {
                    None => None,
                    Some((_size, q2)) => match read_pairs(b, q2, (-c) as nat, acc) {
                        Some((acc2, r)) => read_blocks(b, r, (fuel - 1) as nat, acc2),
                        None => None,
                    },
                }
            },
        }
    }
}

/// The raw records of a tag block. Every block takes at least one byte, so
/// one more block than there are bytes is never needed.
pub open spec fn tag_pairs_of(b: Seq<u8>) -> Option<Seq<(Seq<u8>, Seq<u8>)>> {
    match read_blocks(b, 0, b.len() + 1, Seq::empty()) {
        Some((ps, _end)) => Some(ps),
        None => None,
    }
}

/// The records as text, when every name and value is valid UTF-8.
pub open spec fn texts_of(ps: Seq<(Seq<u8>, Seq<u8>)>) -> Option<Seq<(Seq<char>, Seq<char>)>> {
    if forall|i: int| 0 <= i < ps.len() ==> valid_utf8(#[trigger] ps[i].0) && valid_utf8(ps[i].1) {
        Some(ps.map_values(|t: (Seq<u8>, Seq<u8>)| (decode_utf8(t.0), decode_utf8(t.1))))
    } else {
        None
    }
}

/// The tags that a tag block encodes, or `None` when it is malformed.
pub open spec fn tag_list_of(b: Seq<u8>) -> Option<Seq<(Seq<char>, Seq<char>)>> {
    match tag_pairs_of(b) {
        Some(ps) => texts_of(ps),
        None => None,
    }
}

/// The view of raw records held in vectors.
pub open spec fn raw_pairs_view(v: Seq<(Vec<u8>, Vec<u8>)>) -> Seq<(Seq<u8>, Seq<u8>)> {
    v.map_values(|t: (Vec<u8>, Vec<u8>)| (t.0@, t.1@))
}

/// Powers of 128.
pub open spec fn pow128(i: nat) -> nat
    decreases i,
{
    if i == 0 {
        1
    } else {
        128 * pow128((i - 1) as nat)
    }
}

proof fn lemma_pow128_bound(i: nat)
    requires
        i <= 9,
    ensures
        pow128(i) <= 0x8000_0000_0000_0000,
    decreases i,
{
    if i < 9 {
        lemma_pow128_mono(i, 9);
    }
    reveal_with_fuel(pow128, 10);
    assert(pow128(9) == 0x8000_0000_0000_0000);
}

proof fn lemma_pow128_mono(i: nat, j: nat)
    requires
        i <= j,
    ensures
        pow128(i) <= pow128(j),
    decreases j,
{
    if i < j {
        lemma_pow128_mono(i, (j - 1) as nat);
    }
}

fn read_varint(b: &[u8], p: usize) -> (r: Option<(u128, usize)>)
    requires
        p <= b@.len(),
    ensures
        match r {
            Some((v, q)) => varint_from(b@, p as int, 0, 0, 1) == Some((v as nat, q as int)) && p
                < q <= b@.len(),
            None => varint_from(b@, p as int, 0, 0, 1) is None,
        },
{
    let mut i: usize = 0;
    let mut acc: u128 = 0;
    let mut mul: u128 = 1;
    while i < 10
        invariant
            i <= 10,
            p <= b@.len(),
            acc < mul,
            mul == pow128(i as nat),
            varint_from(b@, p as int, i as nat, acc as nat, mul as nat) == varint_from(
                b@,
                p as int,
                0,
                0,
                1,
            ),
        decreases 10 - i,
    {
        if i >= b.len() - p {
            return None;
        }
        let d = b[p + i];
        let digit: u128 = (d % 128) as u128;
        proof {
            lemma_pow128_bound(i as nat);
            assert(acc + digit * mul < 128 * mul) by (nonlinear_arith)
                requires
                    acc < mul,
                    digit < 128,
            ;
            assert(128 * mul <= 128 * 0x8000_0000_0000_0000) by (nonlinear_arith)
                requires
                    mul <= 0x8000_0000_0000_0000,
            ;
        }
        let acc2 = acc + digit * mul;
        if d < 128 {
            return Some((acc2, p + i + 1));
        }
        acc = acc2;
        mul = mul * 128;
        i = i + 1;
    }
    None
}

fn read_long_at(b: &[u8], p: usize) -> (r: Option<(i128, usize)>)
    requires
        p <= b@.len(),
    ensures
        match r {
            Some((v, q)) => read_long(b@, p as int) == Some((v as int, q as int)) && p < q
                <= b@.len() && -0x8000_0000_0000_0000 <= v <= 0x7fff_ffff_ffff_ffff,
            None => read_long(b@, p as int) is None,
        },
{
    match read_varint(b, p) {
        None => None,
        Some((v, q)) => {
            let w = v % 0x1_0000_0000_0000_0000;
            if w % 2 == 0 {
                Some(((w / 2) as i128, q))
            } else {
                Some((-(((w + 1) / 2) as i128), q))
            }
        },
    }
}

fn read_byte_string_at(b: &[u8], p: usize) -> (r: Option<(Vec<u8>, usize)>)
    requires
        p <= b@.len(),
    ensures
        match r {
            Some((s, q)) => read_byte_string(b@, p as int) == Some((s@, q as int)) && p < q
                <= b@.len(),
            None => read_byte_string(b@, p as int) is None,
        },
{
    match read_long_at(b, p) {
        None => None,
        Some((n, q)) => {
            if n < 0 || n > MAX_LEN as i128 || n as u128 > (b.len() - q) as u128 {
                None
            } else {
                let e = q + n as usize;
                let s = vstd::slice::slice_to_vec(vstd::slice::slice_subrange(b, q, e));
                Some((s, e))
            }
        },
    }
}

fn read_pairs_at(b: &[u8], p: usize, k: u64, acc: Vec<(Vec<u8>, Vec<u8>)>) -> (r: Option<
    (Vec<(Vec<u8>, Vec<u8>)>, usize),
>)
    requires
        p <= b@.len(),
    ensures
        match r {
            Some((v, q)) => read_pairs(b@, p as int, k as nat, raw_pairs_view(acc@)) == Some(
                (raw_pairs_view(v@), q as int),
            ) && p <= q <= b@.len(),
            None => read_pairs(b@, p as int, k as nat, raw_pairs_view(acc@)) is None,
        },
{
    let mut out = acc;
    let mut pos = p;
    let mut j: u64 = k;
    while j > 0
        invariant
            p <= pos <= b@.len(),
            read_pairs(b@, pos as int, j as nat, raw_pairs_view(out@)) == read_pairs(
                b@,
                p as int,
                k as nat,
                raw_pairs_view(acc@),
            ),
        decreases j,
    {
        let (name, q) = match read_byte_string_at(b, pos) {
            Some(x) => x,
            None => return None,
        };
        let (value, r) = match read_byte_string_at(b, q) {
            Some(x) => x,
            None => return None,
        };
        let ghost before = out@;
        out.push((name, value));
        assert(raw_pairs_view(out@) =~= raw_pairs_view(before).push((name@, value@)));
        pos = r;
        j = j - 1;
    }
    Some((out, pos))
}

fn tag_pairs(b: &[u8]) -> (r: Option<Vec<(Vec<u8>, Vec<u8>)>>)
    ensures
        match r {
            Some(v) => tag_pairs_of(b@) == Some(raw_pairs_view(v@)),
            None => tag_pairs_of(b@) is None,
        },
{
    let mut acc: Vec<(Vec<u8>, Vec<u8>)> = Vec::new();
    let mut p: usize = 0;
    let ghost mut fuel: nat = (b@.len() + 1) as nat;
    assert(raw_pairs_view(acc@) =~= Seq::empty());
    loop
        invariant
            p <= b@.len(),
            fuel > b@.len() - p,
            read_blocks(b@, p as int, fuel, raw_pairs_view(acc@)) == read_blocks(
                b@,
                0,
                (b@.len() + 1) as nat,
                Seq::empty(),
            ),
        decreases b@.len() - p,
    {
        let (c, q) = match read_long_at(b, p) {
            Some(x) => x,
            None => return None,
        };
        if c == 0 {
            return Some(acc);
        }
        if c > MAX_LEN as i128 || -c > MAX_LEN as i128 {
            return None;
        }
        let (k, q2) = if c > 0 {
            (c as u64, q)
        } else {
            match read_long_at(b, q) {
                Some((_size, q2)) => ((-c) as u64, q2),
                None => return None,
            }
        };
        match read_pairs_at(b, q2, k, acc) {
            Some((a2, r)) => {
                acc = a2;
                p = r;
                proof {
                    fuel = (fuel - 1) as nat;
                }
            },
            None => return None,
        }
    }
}

/// Decodes a tag block into its tags, in order; a malformed block, or a name
/// or value that is not UTF-8, is a parsing error.
pub fn decode_tag_block(block: &[u8]) -> (r: Result<Vec<Tag>, IndexerError>)
    ensures
        match r {
            Ok(tags) => tag_list_of(block@) == Some(tags_view(tags@)),
            Err(_) => tag_list_of(block@) is None,
        },
{
    let pairs = match tag_pairs(block) {
        Some(v) => v,
        None => return Err(parsing_error("malformed tag block")),
    };
    let ghost ps = raw_pairs_view(pairs@);
    let mut tags: Vec<Tag> = Vec::new();
    let mut i: usize = 0;
    while i < pairs.len()
        invariant
            i <= pairs@.len(),
            ps == raw_pairs_view(pairs@),
            tag_pairs_of(block@) == Some(ps),
            tags@.len() == i,
            forall|j: int|
                0 <= j < i ==> valid_utf8(#[trigger] ps[j].0) && valid_utf8(ps[j].1) && tags@[j]@
                    == (decode_utf8(ps[j].0), decode_utf8(ps[j].1)),
        decreases pairs@.len() - i,
    {
        let name = match utf8_to_string(pairs[i].0.as_slice()) {
            Some(s) => s,
            None => {
                assert(ps[i as int].0 == pairs@[i as int].0@);
                assert(!valid_utf8(ps[i as int].0));
                assert(texts_of(ps) is None);
                return Err(parsing_error("tag name is not UTF-8"));
            },
        };
        let value = match utf8_to_string(pairs[i].1.as_slice()) {
            Some(s) => s,
            None => {
                assert(ps[i as int].1 == pairs@[i as int].1@);
                assert(!(valid_utf8(ps[i as int].0) && valid_utf8(ps[i as int].1)));
                assert(texts_of(ps) is None);
                return Err(parsing_error("tag value is not UTF-8"));
            },
        };
        tags.push(Tag { name, value });
        i = i + 1;
    }
    assert(tags_view(tags@) =~= ps.map_values(
        |t: (Seq<u8>, Seq<u8>)| (decode_utf8(t.0), decode_utf8(t.1)),
    ));
    Ok(tags)
}

} // verus!
