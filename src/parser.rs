//! The bundle layout: a 32-byte item count, a header table of (size, id)
//! entries, then the item bodies, each decoded field by field.
use vstd::prelude::*;
use crate::codec::{
    address_of, b64url_of, byte_array_to_long, encode_id, le_value, lemma_le_value_8,
    owner_to_address,
};
use crate::error::{parsing_error, IndexerError};
use crate::models::{items_view, opt_str_view, tags_view, DataItem, DataItemView, Tag};
use crate::sigtype::{get_owner_length, get_signature_length, get_signature_type, signature_type_of_code};
use crate::tags::{decode_tag_block, tag_list_of};

verus! {

/// Width of the item-count field that opens a bundle.
pub const HEADER_START: usize = 32;

/// Where the tag fields of an item body start, given the widths of its
/// signature and public key: past the target and the anchor, each a presence
/// flag followed, when the flag is 1, by 32 bytes. `None` when a flag or a
/// present field lies beyond the body.
pub open spec fn tags_start_of(b: Seq<u8>, sl: nat, ol: nat) -> Option<nat> {
    let t = 2 + sl + ol;
    if t >= b.len() {
        None
    } else {
        let a = t + if b[t as int] == 1 { 33nat } else { 1nat };
        if a >= b.len() {
            None
        } else {
            let s = a + if b[a as int] == 1 { 33nat } else { 1nat };
            if s > b.len() {
                None
            } else {
                Some(s)
            }
        }
    }
}

/// The tags of an item body: an 8-byte tag count and an 8-byte block size,
/// both little-endian, then the tag block. A zero count means no tags.
pub open spec fn item_tags_of(b: Seq<u8>, sl: nat, ol: nat) -> Option<Seq<(Seq<char>, Seq<char>)>> {
    match tags_start_of(b, sl, ol) {
        None => None,
        Some(s) => if s + 16 > b.len() {
            None
        } else {
            let count = le_value(b.subrange(s as int, (s + 8) as int));
            let size = le_value(b.subrange((s + 8) as int, (s + 16) as int));
            if count == 0 {
                Some(Seq::empty())
            } else if s + 16 + size > b.len() {
                None
            } else {
                tag_list_of(b.subrange((s + 16) as int, (s + 16 + size) as int))
            }
        },
    }
}

/// The decoded form of one item body, its context fields left empty; `None`
/// when the body is malformed.
pub open spec fn decode_item(b: Seq<u8>) -> Option<DataItemView> {
    if b.len() < 2 {
        None
    } else {
        match signature_type_of_code(le_value(b.subrange(0, 2))) {
            None => None,
            Some(t) => {
                let sl = t.spec_signature_length();
                let ol = t.spec_public_key_length();
                match item_tags_of(b, sl, ol) {
                    None => None,
                    Some(tags) => Some(
                        DataItemView {
                            signature_type: t.spec_name(),
                            owner: address_of(b.subrange((2 + sl) as int, (2 + sl + ol) as int)),
                            tags,
                            bundled_in: None,
                            block_height: None,
                            timestamp: None,
                            tx_pos: 0,
                            id: Seq::empty(),
                        },
                    ),
                }
            },
        }
    }
}

/// The size field of the `i`-th header entry.
pub open spec fn entry_delta(b: Seq<u8>, i: nat) -> nat {
    le_value(b.subrange((32 + 64 * i) as int, (32 + 64 * i + 32) as int))
}

/// The raw id of the `i`-th header entry.
pub open spec fn entry_id(b: Seq<u8>, i: nat) -> Seq<u8> {
    b.subrange((32 + 64 * i + 32) as int, (32 + 64 * i + 64) as int)
}

/// An id made of zero bytes only marks an entry to skip.
pub open spec fn is_zero_id(id: Seq<u8>) -> bool {
    forall|k: int| 0 <= k < id.len() ==> id[k] == 0
}

/// A decoded item with its context filled in.
pub open spec fn with_context(
    it: DataItemView,
    bundled_in: Option<Seq<char>>,
    block_height: Option<i64>,
    timestamp: Option<i64>,
    pos: nat,
    id: Seq<char>,
) -> DataItemView {
    DataItemView {
        signature_type: it.signature_type,
        owner: it.owner,
        tags: it.tags,
        bundled_in,
        block_height,
        timestamp,
        tx_pos: pos,
        id,
    }
}

/// Walks the header entries from the `i`-th on, `offset` being the sum of the
/// sizes before it, and appends the items of the entries with a non-zero id
/// to `acc`. Items start right after the header table.
pub open spec fn walk(
    b: Seq<u8>,
    count: nat,
    i: nat,
    offset: nat,
    bundled_in: Option<Seq<char>>,
    block_height: Option<i64>,
    timestamp: Option<i64>,
    acc: Seq<DataItemView>,
) -> Option<Seq<DataItemView>>
    decreases count - i,
{
    if i >= count {
        Some(acc)
    } else {
        let delta = entry_delta(b, i);
        if offset + delta > u128::MAX {
            None
        } else if is_zero_id(entry_id(b, i)) {
            walk(b, count, i + 1, offset + delta, bundled_in, block_height, timestamp, acc)
        } else {
            let start = 32 + 64 * count + offset;
            if start + delta > b.len() {
                None
            } else {
                match decode_item(b.subrange(start as int, (start + delta) as int)) {
                    None => None,
                    Some(it) => walk(
                        b,
                        count,
                        i + 1,
                        offset + delta,
                        bundled_in,
                        block_height,
                        timestamp,
                        acc.push(
                            with_context(
                                it,
                                bundled_in,
                                block_height,
                                timestamp,
                                i,
                                b64url_of(entry_id(b, i)),
                            ),
                        ),
                    ),
                }
            }
        }
    }
}

/// The declared item count of a bundle.
pub open spec fn item_count_of(b: Seq<u8>) -> nat {
    le_value(b.subrange(0, 32))
}

/// The items of a bundle, in header order, or `None` when it is malformed.
pub open spec fn bundle_of(
    b: Seq<u8>,
    bundled_in: Option<Seq<char>>,
    block_height: Option<i64>,
    timestamp: Option<i64>,
) -> Option<Seq<DataItemView>> {
    if b.len() < 32 || 32 + 64 * item_count_of(b) > b.len() {
        None
    } else {
        walk(b, item_count_of(b), 0, 0, bundled_in, block_height, timestamp, Seq::empty())
    }
}

/// Reads the item count from the first 32 bytes of a bundle.
pub fn get_item_count(bytes: &[u8]) -> (r: Result<u128, IndexerError>)
    ensures
        match r {
            Ok(n) => bytes@.len() >= 32 && n as nat == item_count_of(bytes@),
            Err(_) => bytes@.len() < 32 || item_count_of(bytes@) > u128::MAX,
        },
{
    if bytes.len() < HEADER_START {
        return Err(parsing_error("bundle shorter than its item count field"));
    }
    match byte_array_to_long(vstd::slice::slice_subrange(bytes, 0, HEADER_START)) {
        Some(n) => Ok(n),
        None => Err(parsing_error("item count too large")),
    }
}

/// Where the item bodies start: right after the header table.
pub fn get_bundle_start(item_count: u128) -> (r: usize)
    requires
        32 + 64 * item_count <= usize::MAX,
    ensures
        r == 32 + 64 * item_count,
{
    HEADER_START + 64 * item_count as usize
}

/// The signature bytes of an item body.
pub fn get_raw_signature(binary: &[u8], signature_length: usize) -> (r: Vec<u8>)
    requires
        2 + signature_length <= binary.len(),
    ensures
        r@ == binary@.subrange(2, 2 + signature_length),
{
    vstd::slice::slice_to_vec(vstd::slice::slice_subrange(binary, 2, 2 + signature_length))
}

/// The raw public key of an item body.
pub fn get_raw_owner(binary: &[u8], signature_length: usize, owner_length: usize) -> (r: &[u8])
    requires
        2 + signature_length + owner_length <= binary.len(),
    ensures
        r@ == binary@.subrange(2 + signature_length, 2 + signature_length + owner_length),
{
    vstd::slice::slice_subrange(
        binary,
        2 + signature_length,
        2 + signature_length + owner_length,
    )
}

/// Where the target presence flag of an item body stands.
pub fn get_target_start(signature_length: usize, owner_length: usize) -> (r: usize)
    requires
        2 + signature_length + owner_length <= usize::MAX,
    ensures
        r == 2 + signature_length + owner_length,
{
    2 + signature_length + owner_length
}

/// Where the tag fields of an item body start; `None` when the target or the
/// anchor runs past the body.
pub fn get_tags_start(binary: &[u8], signature_length: usize, owner_length: usize) -> (r: Option<
    usize,
>)
    requires
        2 + signature_length + owner_length <= usize::MAX,
    ensures
        match r {
            Some(s) => tags_start_of(binary@, signature_length as nat, owner_length as nat) == Some(
                s as nat,
            ),
            None => tags_start_of(binary@, signature_length as nat, owner_length as nat) is None,
        },
{
    let len = binary.len();
    let target_start = get_target_start(signature_length, owner_length);
    if target_start >= len {
        return None;
    }
    let anchor_start = if binary[target_start] == 1 {
        if len - target_start <= 33 {
            return None;
        }
        target_start + 33
    } else {
        if len - target_start <= 1 {
            return None;
        }
        target_start + 1
    };
    if binary[anchor_start] == 1 {
        if len - anchor_start < 33 {
            return None;
        }
        Some(anchor_start + 33)
    } else {
        Some(anchor_start + 1)
    }
}

/// Decodes the tags of an item body.
pub fn get_tags(binary: &[u8], signature_length: usize, owner_length: usize) -> (r: Result<
    Vec<Tag>,
    IndexerError,
>)
    requires
        2 + signature_length + owner_length <= usize::MAX,
    ensures
        match r {
            Ok(tags) => item_tags_of(binary@, signature_length as nat, owner_length as nat) == Some(
                tags_view(tags@),
            ),
            Err(_) => item_tags_of(binary@, signature_length as nat, owner_length as nat) is None,
        },
{
    let len = binary.len();
    let s = match get_tags_start(binary, signature_length, owner_length) {
        Some(s) => s,
        None => return Err(parsing_error("item too short for its target and anchor")),
    };
    if len - s < 16 {
        return Err(parsing_error("item too short for its tag fields"));
    }
    let count_bytes = vstd::slice::slice_subrange(binary, s, s + 8);
    let size_bytes = vstd::slice::slice_subrange(binary, s + 8, s + 16);
    proof {
        lemma_le_value_8(count_bytes@);
        lemma_le_value_8(size_bytes@);
    }
    let count = byte_array_to_long(count_bytes);
    let size = byte_array_to_long(size_bytes);
    match (count, size) {
        (Some(count), Some(size)) => {
            if count == 0 {
                assert(tags_view(Seq::<Tag>::empty()) =~= Seq::empty());
                return Ok(Vec::new());
            }
            if size > (len - s - 16) as u128 {
                return Err(parsing_error("tag block runs past the item"));
            }
            let block_end = s + 16 + size as usize;
            decode_tag_block(vstd::slice::slice_subrange(binary, s + 16, block_end))
        },
        _ => Err(parsing_error("tag fields too large")),
    }
}

/// Decodes one item body; the context fields are left empty.
pub fn get_data_item(binary: &[u8]) -> (r: Result<DataItem, IndexerError>)
    ensures
        match r {
            Ok(item) => decode_item(binary@) == Some(item@),
            Err(_) => decode_item(binary@) is None,
        },
{
    if binary.len() < 2 {
        return Err(parsing_error("item too short for its signature type"));
    }
    let signature_type = match get_signature_type(binary) {
        Some(t) => t,
        None => return Err(parsing_error("unknown signature type")),
    };
    let signature_length = get_signature_length(signature_type);
    let owner_length = get_owner_length(signature_type);
    if binary.len() - 2 < signature_length + owner_length {
        return Err(parsing_error("item too short for its signature and owner"));
    }
    let raw_owner = get_raw_owner(binary, signature_length, owner_length);
    let owner = owner_to_address(raw_owner);
    let tags = match get_tags(binary, signature_length, owner_length) {
        Ok(tags) => tags,
        Err(e) => return Err(e),
    };
    let item = DataItem {
        signature_type: signature_type.name().to_owned(),
        owner,
        tags,
        bundled_in: None,
        block_height: None,
        timestamp: None,
        tx_pos: 0,
        _id: String::new(),
    };
    assert(item@ =~= decode_item(binary@).unwrap());
    Ok(item)
}

/// Whether a 32-byte id marks a real item: some byte of it is not zero.
pub fn is_id_valid(id: &[u8]) -> (r: bool)
    requires
        id@.len() >= 32,
    ensures
        r == !is_zero_id(id@.subrange(0, 32)),
{
    let mut k: usize = 0;
    while k < 32
        invariant
            k <= 32 <= id@.len(),
            forall|j: int| 0 <= j < k ==> id@[j] == 0,
        decreases 32 - k,
    {
        if id[k] != 0 {
            assert(id@.subrange(0, 32)[k as int] != 0);
            return true;
        }
        k = k + 1;
    }
    false
}

/// The ids of all header entries, base64url-encoded, in header order.
fn get_ids(binary: &[u8], item_count: u128) -> (r: Vec<String>)
    requires
        32 + 64 * item_count <= binary@.len(),
    ensures
        r@.len() == item_count,
        forall|k: int| 0 <= k < item_count ==> #[trigger] r@[k]@ == b64url_of(entry_id(binary@, k as nat)),
{
    let len = binary.len();
    let count = item_count as usize;
    let mut ids: Vec<String> = Vec::new();
    let mut i: usize = 0;
    while i < count
        invariant
            i <= count,
            count == item_count,
            len == binary@.len(),
            32 + 64 * count <= len,
            ids@.len() == i,
            forall|k: int| 0 <= k < i ==> #[trigger] ids@[k]@ == b64url_of(entry_id(binary@, k as nat)),
        decreases count - i,
    {
        let h = HEADER_START + 64 * i;
        ids.push(encode_id(vstd::slice::slice_subrange(binary, h + 32, h + 64)));
        i = i + 1;
    }
    ids
}

fn clone_opt_string(s: &Option<String>) -> (r: Option<String>)
    ensures
        opt_str_view(r) == opt_str_view(*s),
{
    match s {
        Some(t) => Some(t.clone()),
        None => None,
    }
}

/// Decodes every item of a bundle whose header id is not all zero, in header
/// order, each carrying its entry's index, its id and the given context.
/// The first malformed field makes the whole call fail.
pub fn get_items(
    binary_data: &[u8],
    bundled_in: Option<String>,
    block_height: Option<i64>,
    timestamp: Option<i64>,
) -> (r: Result<Vec<DataItem>, IndexerError>)
    ensures
        match r {
            Ok(items) => bundle_of(binary_data@, opt_str_view(bundled_in), block_height, timestamp)
                == Some(items_view(items@)),
            Err(_) => bundle_of(
                binary_data@,
                opt_str_view(bundled_in),
                block_height,
                timestamp,
            ) is None,
        },
{
    let ghost b = binary_data@;
    let ghost ctx = opt_str_view(bundled_in);
    let len = binary_data.len();
    let item_count = match get_item_count(binary_data) {
        Ok(n) => n,
        Err(e) => return Err(e),
    };
    if item_count > ((len - HEADER_START) / 64) as u128 {
        return Err(parsing_error("header table runs past the end of the bundle"));
    }
    assert(32 + 64 * item_count <= len) by (nonlinear_arith)
        requires
            item_count <= (len - 32) / 64,
            len >= 32,
    ;
    let count = item_count as usize;
    let bundle_start = get_bundle_start(item_count);
    let ids = get_ids(binary_data, item_count);
    let mut items: Vec<DataItem> = Vec::new();
    let mut offset: u128 = 0;
    let mut i: usize = 0;
    assert(items_view(items@) =~= Seq::empty());
    while i < count
        invariant
            b == binary_data@,
            ctx == opt_str_view(bundled_in),
            len == b.len(),
            i <= count,
            count == item_count == item_count_of(b),
            bundle_start == 32 + 64 * count <= len,
            ids@.len() == count,
            forall|k: int| 0 <= k < count ==> #[trigger] ids@[k]@ == b64url_of(entry_id(b, k as nat)),
            walk(b, count as nat, i as nat, offset as nat, ctx, block_height, timestamp, items_view(items@))
                == bundle_of(b, ctx, block_height, timestamp),
        decreases count - i,
    {
        let h = HEADER_START + 64 * i;
        let delta = match byte_array_to_long(vstd::slice::slice_subrange(binary_data, h, h + 32)) {
            Some(d) => d,
            None => return Err(parsing_error("item size too large")),
        };
        if offset > u128::MAX - delta {
            return Err(parsing_error("item sizes overflow"));
        }
        let next = offset + delta;
        let id_bytes = vstd::slice::slice_subrange(binary_data, h + 32, h + 64);
        assert(id_bytes@.subrange(0, 32) =~= entry_id(b, i as nat));
        if is_id_valid(id_bytes) {
            if next > (len - bundle_start) as u128 {
                return Err(parsing_error("item runs past the end of the bundle"));
            }
            let start = bundle_start + offset as usize;
            let end = start + delta as usize;
            let item = match get_data_item(vstd::slice::slice_subrange(binary_data, start, end)) {
                Ok(it) => it,
                Err(e) => return Err(e),
            };
            let full = DataItem {
                signature_type: item.signature_type,
                owner: item.owner,
                tags: item.tags,
                bundled_in: clone_opt_string(&bundled_in),
                block_height,
                timestamp,
                tx_pos: i,
                _id: ids[i].clone(),
            };
            let ghost before = items@;
            items.push(full);
            assert(items_view(items@) =~= items_view(before).push(
                with_context(item@, ctx, block_height, timestamp, i as nat, b64url_of(entry_id(b, i as nat))),
            ));
        }
        offset = next;
        i = i + 1;
    }
    Ok(items)
}

/// Decodes a standalone bundle: its items carry no enclosing-bundle context.
pub fn parse_bundle(bundle: &[u8]) -> (r: Result<Vec<DataItem>, IndexerError>)
    ensures
        match r {
            Ok(items) => bundle_of(bundle@, None, None, None) == Some(items_view(items@)),
            Err(_) => bundle_of(bundle@, None, None, None) is None,
        },
{
    get_items(bundle, None, None, None)
}

} // verus!
