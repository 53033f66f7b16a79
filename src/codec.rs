//! Primitive codecs: little-endian integers, base64url text, digests, UTF-8.
use vstd::prelude::*;
use vstd::utf8::{decode_utf8, valid_utf8};

verus! {

/// The value of a byte sequence read as a little-endian unsigned integer.
pub open spec fn le_value(s: Seq<u8>) -> nat
    decreases s.len(),
{
    if s.len() == 0 {
        0
    } else {
        s[0] as nat + 256 * le_value(s.drop_first())
    }
}

proof fn lemma_le_value_suffix_step(s: Seq<u8>, i: int)
    requires
        0 < i <= s.len(),
    ensures
        le_value(s.subrange(i - 1, s.len() as int)) == s[i - 1] as nat + 256 * le_value(
            s.subrange(i, s.len() as int),
        ),
{
    assert(s.subrange(i - 1, s.len() as int).drop_first() =~= s.subrange(i, s.len() as int));
}

proof fn lemma_le_value_suffix_bound(s: Seq<u8>, i: int)
    requires
        0 <= i <= s.len(),
    ensures
        le_value(s.subrange(i, s.len() as int)) <= le_value(s),
    decreases i,
{
    if i > 0 {
        lemma_le_value_suffix_step(s, i);
        lemma_le_value_suffix_bound(s, i - 1);
    } else {
        assert(s.subrange(0, s.len() as int) =~= s);
    }
}

/// Powers of 256.
pub open spec fn pow256(n: nat) -> nat
    decreases n,
{
    if n == 0 {
        1
    } else {
        256 * pow256((n - 1) as nat)
    }
}

/// A little-endian value is below 256 to the power of its width.
pub proof fn lemma_le_value_bound(s: Seq<u8>)
    ensures
        le_value(s) < pow256(s.len()),
    decreases s.len(),
{
    if s.len() > 0 {
        lemma_le_value_bound(s.drop_first());
        let rest = le_value(s.drop_first());
        let p = pow256((s.len() - 1) as nat);
        assert(s[0] as nat + 256 * rest < 256 * p) by (nonlinear_arith)
            requires
                rest < p,
                s[0] < 256,
        ;
    }
}

/// An eight-byte little-endian value fits in 64 bits.
pub proof fn lemma_le_value_8(s: Seq<u8>)
    requires
        s.len() == 8,
    ensures
        le_value(s) <= u64::MAX,
{
    lemma_le_value_bound(s);
    reveal_with_fuel(pow256, 9);
}

/// Reads a byte slice as a little-endian unsigned integer; `None` when the
/// value does not fit in 128 bits.
pub fn byte_array_to_long(byte_array: &[u8]) -> (r: Option<u128>)
    ensures
        le_value(byte_array@) <= u128::MAX ==> r == Some(le_value(byte_array@) as u128),
        le_value(byte_array@) > u128::MAX ==> r is None,
{
    let n = byte_array.len();
    let mut value: u128 = 0;
    let mut i: usize = n;
    assert(le_value(byte_array@.subrange(n as int, n as int)) == 0);
    while i > 0
        invariant
            i <= n,
            n == byte_array@.len(),
            value as nat == le_value(byte_array@.subrange(i as int, n as int)),
        decreases i,
    {
        proof {
            lemma_le_value_suffix_step(byte_array@, i as int);
            lemma_le_value_suffix_bound(byte_array@, i - 1);
        }
        let b = byte_array[i - 1];
        let limit: u128 = (u128::MAX - b as u128) / 256;
        if value > limit {
            assert(value as nat * 256 + b as nat > u128::MAX) by (nonlinear_arith)
                requires
                    value > limit,
                    limit == (u128::MAX - b as u128) / 256,
            ;
            return None;
        }
        assert(value as nat * 256 + b as nat <= u128::MAX) by (nonlinear_arith)
            requires
                value <= limit,
                limit == (u128::MAX - b as u128) / 256,
        ;
        value = value * 256 + b as u128;
        i = i - 1;
    }
    assert(byte_array@.subrange(0, n as int) =~= byte_array@);
    Some(value)
}

/// The base64 text of a byte sequence, in the URL-safe alphabet, without padding.
pub uninterp spec fn b64url_of(b: Seq<u8>) -> Seq<char>;

/// The SHA-256 digest of a byte sequence.
pub uninterp spec fn sha256_of(b: Seq<u8>) -> Seq<u8>;

/// Relies on base64's `URL_SAFE_NO_PAD.encode`: URL-safe base64 without padding;
/// 32 bytes give 43 characters.
#[verifier::external_body]
fn base64url_encode(b: &[u8]) -> (r: String)
    requires
        b@.len() == 32,
    ensures
        r@ == b64url_of(b@),
        r@.len() == 43,
{
    base64::Engine::encode(&base64::engine::general_purpose::URL_SAFE_NO_PAD, b)
}

/// Relies on sha2's `Sha256::digest`: the 32-byte digest of the input.
#[verifier::external_body]
fn sha256(b: &[u8]) -> (r: Vec<u8>)
    ensures
        r@ == sha256_of(b@),
        r@.len() == 32,
{
    <sha2::Sha256 as sha2::Digest>::digest(b).to_vec()
}

/// Relies on std's `String::from_utf8`: it accepts exactly the valid UTF-8
/// sequences and decodes them.
#[verifier::external_body]
pub(crate) fn utf8_to_string(b: &[u8]) -> (r: Option<String>)
    ensures
        match r {
            Some(s) => valid_utf8(b@) && s@ == decode_utf8(b@),
            None => !valid_utf8(b@),
        },
{
    String::from_utf8(b.to_vec()).ok()
}

/// The text form of a 32-byte item id: its base64url encoding without padding.
pub fn encode_id(id: &[u8]) -> (r: String)
    requires
        id@.len() == 32,
    ensures
        r@ == b64url_of(id@),
        r@.len() == 43,
{
    base64url_encode(id)
}

/// The address of an owner: the base64url encoding of the SHA-256 digest of
/// the raw public key.
pub open spec fn address_of(raw_owner: Seq<u8>) -> Seq<char> {
    b64url_of(sha256_of(raw_owner))
}

/// Derives the owner address from a raw public key.
pub fn owner_to_address(raw_owner: &[u8]) -> (r: String)
    ensures
        r@ == address_of(raw_owner@),
        r@.len() == 43,
{
    let digest = sha256(raw_owner);
    base64url_encode(digest.as_slice())
}

} // verus!
