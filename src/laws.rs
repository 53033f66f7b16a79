//! Properties of decoding, stated over the specifications and proved.
use vstd::prelude::*;
use crate::codec::le_value;
use crate::models::DataItemView;
use crate::parser::{bundle_of, decode_item, entry_delta, entry_id, is_zero_id, item_count_of, walk};
use crate::sigtype::{signature_type_of_code, SignatureType};

verus! {

/// Indices of the header entries from the `i`-th on whose id is not all zero.
pub open spec fn valid_positions(b: Seq<u8>, count: nat, i: nat) -> Seq<nat>
    decreases count - i,
{
    if i >= count {
        Seq::empty()
    } else if is_zero_id(entry_id(b, i)) {
        valid_positions(b, count, i + 1)
    } else {
        seq![i] + valid_positions(b, count, i + 1)
    }
}

/// Number of header entries from the `i`-th on whose id is all zero.
pub open spec fn zero_ids(b: Seq<u8>, count: nat, i: nat) -> nat
    decreases count - i,
{
    if i >= count {
        0
    } else if is_zero_id(entry_id(b, i)) {
        1 + zero_ids(b, count, i + 1)
    } else {
        zero_ids(b, count, i + 1)
    }
}

proof fn lemma_walk_positions(
    b: Seq<u8>,
    count: nat,
    i: nat,
    offset: nat,
    bundled_in: Option<Seq<char>>,
    block_height: Option<i64>,
    timestamp: Option<i64>,
    acc: Seq<DataItemView>,
    s: Seq<DataItemView>,
)
    requires
        i <= count,
        walk(b, count, i, offset, bundled_in, block_height, timestamp, acc) == Some(s),
    ensures
        s.len() == acc.len() + valid_positions(b, count, i).len(),
        valid_positions(b, count, i).len() + zero_ids(b, count, i) == count - i,
        forall|k: int| 0 <= k < acc.len() ==> s[k] == acc[k],
        forall|k: int|
            0 <= k < valid_positions(b, count, i).len() ==> s[acc.len() + k].tx_pos
                == valid_positions(b, count, i)[k],
    decreases count - i,
{
    if i < count {
        let delta = crate::parser::entry_delta(b, i);
        if is_zero_id(entry_id(b, i)) {
            lemma_walk_positions(
                b,
                count,
                i + 1,
                offset + delta,
                bundled_in,
                block_height,
                timestamp,
                acc,
                s,
            );
        } else {
            let start = 32 + 64 * count + offset;
            let it = decode_item(b.subrange(start as int, (start + delta) as int)).unwrap();
            let x = crate::parser::with_context(
                it,
                bundled_in,
                block_height,
                timestamp,
                i,
                crate::codec::b64url_of(entry_id(b, i)),
            );
            let acc2 = acc.push(x);
            lemma_walk_positions(
                b,
                count,
                i + 1,
                offset + delta,
                bundled_in,
                block_height,
                timestamp,
                acc2,
                s,
            );
            let vp = valid_positions(b, count, i);
            let vp1 = valid_positions(b, count, i + 1);
            assert(vp =~= seq![i] + vp1);
            assert(s[acc.len() as int] == acc2[acc.len() as int]);
            assert forall|k: int| 0 <= k < vp.len() implies s[acc.len() + k].tx_pos == vp[k] by {
                if k > 0 {
                    assert(s[acc2.len() + (k - 1)].tx_pos == vp1[k - 1]);
                }
            }
        }
    }
}

/// Each decoded item stands for one header entry whose id is not all zero:
/// there are as many items as the declared count less the all-zero ids, and
/// their positions are exactly the indices of those entries, in header order.
pub proof fn lemma_items_match_valid_entries(
    b: Seq<u8>,
    bundled_in: Option<Seq<char>>,
    block_height: Option<i64>,
    timestamp: Option<i64>,
)
    requires
        bundle_of(b, bundled_in, block_height, timestamp) is Some,
    ensures
        bundle_of(b, bundled_in, block_height, timestamp).unwrap().len() == item_count_of(b)
            - zero_ids(b, item_count_of(b), 0),
        bundle_of(b, bundled_in, block_height, timestamp).unwrap().map_values(
            |it: DataItemView| it.tx_pos,
        ) == valid_positions(b, item_count_of(b), 0),
{
    let s = bundle_of(b, bundled_in, block_height, timestamp).unwrap();
    lemma_walk_positions(
        b,
        item_count_of(b),
        0,
        0,
        bundled_in,
        block_height,
        timestamp,
        Seq::empty(),
        s,
    );
    assert(s.map_values(|it: DataItemView| it.tx_pos) =~= valid_positions(b, item_count_of(b), 0));
}

/// A bundle that declares no items decodes to no items, whatever follows its
/// count field.
pub proof fn lemma_empty_bundle(
    b: Seq<u8>,
    bundled_in: Option<Seq<char>>,
    block_height: Option<i64>,
    timestamp: Option<i64>,
)
    requires
        b.len() >= 32,
        item_count_of(b) == 0,
    ensures
        bundle_of(b, bundled_in, block_height, timestamp) == Some(Seq::<DataItemView>::empty()),
{
}

/// Decoding depends on the bytes alone: decoding the same bytes twice gives
/// the same result.
pub proof fn lemma_decoding_deterministic(
    b1: Seq<u8>,
    b2: Seq<u8>,
    bundled_in: Option<Seq<char>>,
    block_height: Option<i64>,
    timestamp: Option<i64>,
)
    requires
        b1 == b2,
    ensures
        bundle_of(b1, bundled_in, block_height, timestamp) == bundle_of(
            b2,
            bundled_in,
            block_height,
            timestamp,
        ),
{
}

/// The fewest bytes an item body of the given signature type can hold:
/// type code, signature, public key, two presence flags, tag count and size.
pub open spec fn min_item_len(t: SignatureType) -> nat {
    2 + t.spec_signature_length() + t.spec_public_key_length() + 2 + 16
}

/// An item body too short for the fixed fields of its declared signature
/// type is rejected rather than decoded from partial fields.
pub proof fn lemma_short_item_rejected(b: Seq<u8>)
    requires
        b.len() >= 2,
        signature_type_of_code(le_value(b.subrange(0, 2))) is Some,
        b.len() < min_item_len(signature_type_of_code(le_value(b.subrange(0, 2))).unwrap()),
    ensures
        decode_item(b) is None,
{
}

/// Sum of the sizes of the header entries before the `i`-th.
pub open spec fn offset_before(b: Seq<u8>, i: nat) -> nat
    decreases i,
{
    if i == 0 {
        0
    } else {
        offset_before(b, (i - 1) as nat) + entry_delta(b, (i - 1) as nat)
    }
}

/// Where the body of the `i`-th entry starts.
pub open spec fn entry_start(b: Seq<u8>, count: nat, i: nat) -> nat {
    32 + 64 * count + offset_before(b, i)
}

/// The body of the `i`-th entry.
pub open spec fn entry_body(b: Seq<u8>, count: nat, i: nat) -> Seq<u8> {
    b.subrange(
        entry_start(b, count, i) as int,
        (entry_start(b, count, i) + entry_delta(b, i)) as int,
    )
}

proof fn lemma_walk_bodies(
    b: Seq<u8>,
    count: nat,
    i: nat,
    bundled_in: Option<Seq<char>>,
    block_height: Option<i64>,
    timestamp: Option<i64>,
    acc: Seq<DataItemView>,
    s: Seq<DataItemView>,
)
    requires
        i <= count,
        walk(b, count, i, offset_before(b, i), bundled_in, block_height, timestamp, acc) == Some(s),
    ensures
        forall|j: nat|
            i <= j < count && !is_zero_id(entry_id(b, j)) ==> entry_start(b, count, j)
                + entry_delta(b, j) <= b.len() && (#[trigger] decode_item(entry_body(b, count, j)))
                is Some,
    decreases count - i,
{
    if i < count {
        assert(offset_before(b, i + 1) == offset_before(b, i) + entry_delta(b, i));
        if is_zero_id(entry_id(b, i)) {
            lemma_walk_bodies(b, count, i + 1, bundled_in, block_height, timestamp, acc, s);
        } else {
            let it = decode_item(entry_body(b, count, i)).unwrap();
            let acc2 = acc.push(
                crate::parser::with_context(
                    it,
                    bundled_in,
                    block_height,
                    timestamp,
                    i,
                    crate::codec::b64url_of(entry_id(b, i)),
                ),
            );
            lemma_walk_bodies(b, count, i + 1, bundled_in, block_height, timestamp, acc2, s);
        }
    }
}

/// A bundle decodes only when the body of every entry with a non-zero id lies
/// within the container and decodes: one malformed item fails the whole bundle.
pub proof fn lemma_every_item_body_decodes(
    b: Seq<u8>,
    bundled_in: Option<Seq<char>>,
    block_height: Option<i64>,
    timestamp: Option<i64>,
    j: nat,
)
    requires
        bundle_of(b, bundled_in, block_height, timestamp) is Some,
        j < item_count_of(b),
        !is_zero_id(entry_id(b, j)),
    ensures
        entry_start(b, item_count_of(b), j) + entry_delta(b, j) <= b.len(),
        decode_item(entry_body(b, item_count_of(b), j)) is Some,
{
    let s = bundle_of(b, bundled_in, block_height, timestamp).unwrap();
    lemma_walk_bodies(b, item_count_of(b), 0, bundled_in, block_height, timestamp, Seq::empty(), s);
}

/// An entry whose size is too small for the fixed fields of the signature
/// type its body declares makes the whole bundle fail.
pub proof fn lemma_short_entry_fails_bundle(
    b: Seq<u8>,
    bundled_in: Option<Seq<char>>,
    block_height: Option<i64>,
    timestamp: Option<i64>,
    j: nat,
    t: SignatureType,
)
    requires
        j < item_count_of(b),
        !is_zero_id(entry_id(b, j)),
        entry_delta(b, j) >= 2,
        signature_type_of_code(le_value(entry_body(b, item_count_of(b), j).subrange(0, 2))) == Some(
            t,
        ),
        entry_delta(b, j) < min_item_len(t),
    ensures
        bundle_of(b, bundled_in, block_height, timestamp) is None,
{
    if bundle_of(b, bundled_in, block_height, timestamp) is Some {
        lemma_every_item_body_decodes(b, bundled_in, block_height, timestamp, j);
        lemma_short_item_rejected(entry_body(b, item_count_of(b), j));
    }
}

} // verus!
