//! Decoder for ANS-104 bundles: a binary container that packs many signed
//! data items, each with its signer, optional target and anchor, and tags.
pub mod codec;
pub mod error;
pub mod laws;
pub mod models;
pub mod parser;
pub mod sigtype;
pub mod tags;

pub use codec::{byte_array_to_long, encode_id, owner_to_address};
pub use error::IndexerError;
pub use models::{DataItem, Tag};
pub use parser::{
    get_bundle_start, get_data_item, get_item_count, get_items, get_raw_owner, get_raw_signature,
    get_tags, get_tags_start, get_target_start, is_id_valid, parse_bundle,
};
pub use sigtype::{get_owner_length, get_signature_length, get_signature_type, lookup, SignatureType};
pub use tags::decode_tag_block;
