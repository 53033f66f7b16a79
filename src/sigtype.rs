//! The registry of signature types: the scheme an item is signed with fixes
//! the widths of its signature and public-key fields.
use vstd::prelude::*;
use crate::codec::{byte_array_to_long, le_value};

verus! {

/// A signature scheme, selected by a 1-based code in the item body.
#[derive(Debug, Clone, Copy, PartialEq, Eq, Structural)]
pub enum SignatureType {
    Arweave,
    Ed25519,
    Ethereum,
    Solana,
    InjectedAptos,
    MultiAptos,
    TypedEthereum,
}

impl SignatureType {
    pub open spec fn spec_name(self) -> Seq<char> {
        match self {
            SignatureType::Arweave => "ARWEAVE"@,
            SignatureType::Ed25519 => "ED25519"@,
            SignatureType::Ethereum => "ETHEREUM"@,
            SignatureType::Solana => "SOLANA"@,
            SignatureType::InjectedAptos => "INJECTEDAPTOS"@,
            SignatureType::MultiAptos => "MULTIAPTOS"@,
            SignatureType::TypedEthereum => "TYPEDETHEREUM"@,
        }
    }

    /// Width in bytes of the signature field.
    pub open spec fn spec_signature_length(self) -> nat {
        match self {
            SignatureType::Arweave => 512,
            SignatureType::Ed25519 => 64,
            SignatureType::Ethereum => 65,
            SignatureType::Solana => 64,
            SignatureType::InjectedAptos => 64,
            SignatureType::MultiAptos => 64 * 32 + 4,
            SignatureType::TypedEthereum => 65,
        }
    }

    /// Width in bytes of the public-key field.
    pub open spec fn spec_public_key_length(self) -> nat {
        match self {
            SignatureType::Arweave => 512,
            SignatureType::Ed25519 => 32,
            SignatureType::Ethereum => 65,
            SignatureType::Solana => 32,
            SignatureType::InjectedAptos => 32,
            SignatureType::MultiAptos => 32 * 32 + 1,
            SignatureType::TypedEthereum => 42,
        }
    }

    /// The scheme's registry name.
    pub fn name(&self) -> (r: &'static str)
        ensures
            r@ == self.spec_name(),
    {
        match self {
            SignatureType::Arweave => "ARWEAVE",
            SignatureType::Ed25519 => "ED25519",
            SignatureType::Ethereum => "ETHEREUM",
            SignatureType::Solana => "SOLANA",
            SignatureType::InjectedAptos => "INJECTEDAPTOS",
            SignatureType::MultiAptos => "MULTIAPTOS",
            SignatureType::TypedEthereum => "TYPEDETHEREUM",
        }
    }
}

/// The signature type with the given code, if the code is known (1 to 7).
pub open spec fn signature_type_of_code(code: nat) -> Option<SignatureType> {
    if code == 1 {
        Some(SignatureType::Arweave)
    } else if code == 2 {
        Some(SignatureType::Ed25519)
    } else if code == 3 {
        Some(SignatureType::Ethereum)
    } else if code == 4 {
        Some(SignatureType::Solana)
    } else if code == 5 {
        Some(SignatureType::InjectedAptos)
    } else if code == 6 {
        Some(SignatureType::MultiAptos)
    } else if code == 7 {
        Some(SignatureType::TypedEthereum)
    } else {
        None
    }
}

/// Looks a signature type up by its code.
pub fn lookup(code: u128) -> (r: Option<SignatureType>)
    ensures
        r == signature_type_of_code(code as nat),
{
    if code == 1 {
        Some(SignatureType::Arweave)
    } else if code == 2 {
        Some(SignatureType::Ed25519)
    } else if code == 3 {
        Some(SignatureType::Ethereum)
    } else if code == 4 {
        Some(SignatureType::Solana)
    } else if code == 5 {
        Some(SignatureType::InjectedAptos)
    } else if code == 6 {
        Some(SignatureType::MultiAptos)
    } else if code == 7 {
        Some(SignatureType::TypedEthereum)
    } else {
        None
    }
}

/// The signature type named by the first two bytes of an item body, read
/// little-endian.
pub fn get_signature_type(binary: &[u8]) -> (r: Option<SignatureType>)
    requires
        binary@.len() >= 2,
    ensures
        r == signature_type_of_code(le_value(binary@.subrange(0, 2))),
{
    let code_bytes = vstd::slice::slice_subrange(binary, 0, 2);
    let code = byte_array_to_long(code_bytes);
    proof {
        let s = binary@.subrange(0, 2);
        assert(le_value(s.drop_first().drop_first()) == 0);
        assert(le_value(s.drop_first()) == s[1] as nat);
        assert(le_value(s) == s[0] as nat + 256 * s[1] as nat);
    }
    match code {
        Some(c) => lookup(c),
        None => None,
    }
}

/// Width in bytes of the signature field of the given type.
pub fn get_signature_length(signature_type: SignatureType) -> (r: usize)
    ensures
        r == signature_type.spec_signature_length(),
{
    match signature_type {
        SignatureType::Arweave => 512,
        SignatureType::Ed25519 => 64,
        SignatureType::Ethereum => 65,
        SignatureType::Solana => 64,
        SignatureType::InjectedAptos => 64,
        SignatureType::MultiAptos => 64 * 32 + 4,
        SignatureType::TypedEthereum => 65,
    }
}

/// Width in bytes of the public-key field of the given type.
pub fn get_owner_length(signature_type: SignatureType) -> (r: usize)
    ensures
        r == signature_type.spec_public_key_length(),
{
    match signature_type {
        SignatureType::Arweave => 512,
        SignatureType::Ed25519 => 32,
        SignatureType::Ethereum => 65,
        SignatureType::Solana => 32,
        SignatureType::InjectedAptos => 32,
        SignatureType::MultiAptos => 32 * 32 + 1,
        SignatureType::TypedEthereum => 42,
    }
}

} // verus!
