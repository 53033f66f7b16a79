use ans104_indexer::{
    byte_array_to_long, decode_tag_block, encode_id, get_bundle_start, get_data_item,
    get_item_count, get_items, get_owner_length, get_raw_owner, get_raw_signature,
    get_signature_length, get_signature_type, get_tags, get_tags_start, get_target_start,
    is_id_valid, lookup, owner_to_address, parse_bundle, IndexerError, SignatureType, Tag,
};

fn zz(n: i64) -> Vec<u8> {
    let mut v = ((n << 1) ^ (n >> 63)) as u64;
    let mut out = Vec::new();
    loop {
        let byte = (v & 0x7f) as u8;
        v >>= 7;
        if v == 0 {
            out.push(byte);
            return out;
        }
        out.push(byte | 0x80);
    }
}

fn bytes_field(s: &[u8]) -> Vec<u8> {
    let mut out = zz(s.len() as i64);
    out.extend_from_slice(s);
    out
}

fn short_block(tags: &[(&str, &str)]) -> Vec<u8> {
    let mut out = zz(tags.len() as i64);
    for (n, v) in tags {
        out.extend(bytes_field(n.as_bytes()));
        out.extend(bytes_field(v.as_bytes()));
    }
    out.push(0);
    out
}

fn le(n: u64, width: usize) -> Vec<u8> {
    let mut out = n.to_le_bytes().to_vec();
    out.resize(width, 0);
    out
}

/// An ED25519 item: zero signature, the given key, no target or anchor.
fn ed25519_item(key: &[u8], tags: &[(&str, &str)]) -> Vec<u8> {
    let mut body = vec![2, 0];
    body.extend(vec![0u8; 64]);
    body.extend_from_slice(key);
    body.push(0);
    body.push(0);
    if tags.is_empty() {
        body.extend(le(0, 16));
    } else {
        let block = short_block(tags);
        body.extend(le(tags.len() as u64, 8));
        body.extend(le(block.len() as u64, 8));
        body.extend(block);
    }
    body
}

fn bundle(entries: &[(Vec<u8>, [u8; 32])]) -> Vec<u8> {
    let mut out = le(entries.len() as u64, 32);
    for (body, id) in entries {
        out.extend(le(body.len() as u64, 32));
        out.extend_from_slice(id);
    }
    for (body, _) in entries {
        out.extend_from_slice(body);
    }
    out
}

fn seq_id() -> [u8; 32] {
    let mut id = [0u8; 32];
    for (i, b) in id.iter_mut().enumerate() {
        *b = i as u8 + 1;
    }
    id
}

fn is_parsing_error<T>(r: &Result<T, IndexerError>) -> bool {
    matches!(r, Err(IndexerError::ParsingError(_)))
}

#[test]
fn single_ed25519_item() {
    let body = ed25519_item(&[7u8; 32], &[]);
    assert_eq!(body.len(), 116);
    let data = bundle(&[(body, seq_id())]);
    let items = parse_bundle(&data).unwrap();
    assert_eq!(items.len(), 1);
    let it = &items[0];
    assert_eq!(it.signature_type, "ED25519");
    assert!(it.tags.is_empty());
    assert_eq!(it.tx_pos, 0);
    assert_eq!(it._id, "AQIDBAUGBwgJCgsMDQ4PEBESExQVFhcYGRobHB0eHyA");
    assert_eq!(it.owner, "S7Bvjk46dxXSAdVz0KpCN2LlXavWGiwCJ4-lbMbSlOA");
    assert_eq!(it.bundled_in, None);
    assert_eq!(it.block_height, None);
    assert_eq!(it.timestamp, None);
}

#[test]
fn zero_id_entry_is_skipped() {
    let skipped = vec![0xAAu8; 5];
    let body = ed25519_item(&[7u8; 32], &[("app", "demo")]);
    let data = bundle(&[(skipped, [0u8; 32]), (body, [9u8; 32])]);
    let items = parse_bundle(&data).unwrap();
    assert_eq!(items.len(), 1);
    assert_eq!(items[0].tx_pos, 1);
    assert_eq!(items[0]._id, "CQkJCQkJCQkJCQkJCQkJCQkJCQkJCQkJCQkJCQkJCQk");
    assert_eq!(items[0].tags, vec![Tag { name: "app".to_string(), value: "demo".to_string() }]);
}

#[test]
fn positions_keep_gaps() {
    let a = ed25519_item(&[1u8; 32], &[]);
    let b = ed25519_item(&[2u8; 32], &[]);
    let data = bundle(&[
        (a, [1u8; 32]),
        (vec![], [0u8; 32]),
        (vec![3, 3], [0u8; 32]),
        (b, [4u8; 32]),
    ]);
    let items = parse_bundle(&data).unwrap();
    let positions: Vec<usize> = items.iter().map(|i| i.tx_pos).collect();
    assert_eq!(positions, vec![0, 3]);
}

#[test]
fn tag_block_two_tags_in_order() {
    let block = short_block(&[("app", "demo"), ("v", "1")]);
    let tags = decode_tag_block(&block).unwrap();
    assert_eq!(
        tags,
        vec![
            Tag { name: "app".to_string(), value: "demo".to_string() },
            Tag { name: "v".to_string(), value: "1".to_string() },
        ]
    );
}

#[test]
fn tag_block_long_form_blocks() {
    let mut block = zz(-1);
    let rec = [bytes_field(b"a"), bytes_field(b"b")].concat();
    block.extend(zz(rec.len() as i64));
    block.extend(rec);
    block.extend(zz(1));
    block.extend(bytes_field(b"c"));
    block.extend(bytes_field(b""));
    block.push(0);
    let tags = decode_tag_block(&block).unwrap();
    assert_eq!(tags.len(), 2);
    assert_eq!(tags[0].name, "a");
    assert_eq!(tags[0].value, "b");
    assert_eq!(tags[1].name, "c");
    assert_eq!(tags[1].value, "");
}

#[test]
fn tag_block_empty_array() {
    assert_eq!(decode_tag_block(&[0]).unwrap(), vec![]);
}

#[test]
fn tag_block_malformed() {
    assert!(is_parsing_error(&decode_tag_block(&[])));
    // a record count with no terminating block
    let mut block = short_block(&[("app", "demo")]);
    block.pop();
    assert!(is_parsing_error(&decode_tag_block(&block)));
    // a string longer than the block
    assert!(is_parsing_error(&decode_tag_block(&[2, 20, b'x', 0])));
    // a negative string length
    assert!(is_parsing_error(&decode_tag_block(&[2, 1, 0])));
    // a varint that never ends
    assert!(is_parsing_error(&decode_tag_block(&[0xff; 12])));
}

#[test]
fn tag_block_invalid_utf8() {
    let mut block = zz(1);
    block.extend(bytes_field(&[0xff, 0xfe]));
    block.extend(bytes_field(b"v"));
    block.push(0);
    assert!(is_parsing_error(&decode_tag_block(&block)));
}

#[test]
fn empty_bundle() {
    let mut data = le(0, 32);
    data.extend(vec![5u8; 10]);
    assert_eq!(parse_bundle(&data).unwrap(), vec![]);
    assert_eq!(parse_bundle(&le(0, 32)).unwrap(), vec![]);
}

#[test]
fn decoding_twice_is_identical() {
    let body = ed25519_item(&[7u8; 32], &[("app", "demo"), ("v", "1")]);
    let data = bundle(&[(body, seq_id())]);
    let first = parse_bundle(&data).unwrap();
    let second = parse_bundle(&data).unwrap();
    assert_eq!(first, second);
}

#[test]
fn address_of_known_keys() {
    assert_eq!(owner_to_address(&[]), "47DEQpj8HBSa-_TImW-5JCeuQeRkm5NMpJWZG3hSuFU");
    let key: Vec<u8> = (1..=32).collect();
    assert_eq!(owner_to_address(&key), "riFsLvUkejeCwTXvonmj5M3GEJQnD10r5YxiBLemEsk");
}

#[test]
fn encode_id_is_base64url() {
    assert_eq!(encode_id(&[0u8; 32]), "AAAAAAAAAAAAAAAAAAAAAAAAAAAAAAAAAAAAAAAAAAA");
    assert_eq!(encode_id(&seq_id()), "AQIDBAUGBwgJCgsMDQ4PEBESExQVFhcYGRobHB0eHyA");
}

#[test]
fn item_shorter_than_its_fields() {
    let mut body = ed25519_item(&[7u8; 32], &[]);
    body.truncate(60);
    assert!(is_parsing_error(&get_data_item(&body)));
    let data = bundle(&[(body, seq_id())]);
    assert!(is_parsing_error(&parse_bundle(&data)));
    // one byte short of the tag fields
    let mut body = ed25519_item(&[7u8; 32], &[]);
    body.pop();
    assert!(is_parsing_error(&get_data_item(&body)));
}

#[test]
fn unknown_signature_types() {
    for code in [0u8, 8, 255] {
        let mut body = ed25519_item(&[7u8; 32], &[]);
        body[0] = code;
        assert!(is_parsing_error(&get_data_item(&body)));
    }
}

#[test]
fn bundle_errors() {
    assert!(is_parsing_error(&parse_bundle(&[0u8; 31])));
    // the header table runs past the end
    assert!(is_parsing_error(&parse_bundle(&le(2, 32))));
    // an item runs past the end
    let body = ed25519_item(&[7u8; 32], &[]);
    let mut data = bundle(&[(body, seq_id())]);
    data.pop();
    assert!(is_parsing_error(&parse_bundle(&data)));
    // a count beyond 128 bits
    let mut data = vec![0u8; 32];
    data[31] = 1;
    assert!(is_parsing_error(&parse_bundle(&data)));
}

#[test]
fn context_fields_are_filled() {
    let body = ed25519_item(&[7u8; 32], &[]);
    let data = bundle(&[(body, seq_id())]);
    let items = get_items(&data, Some("bundle".to_string()), Some(12), Some(34)).unwrap();
    assert_eq!(items[0].bundled_in.as_deref(), Some("bundle"));
    assert_eq!(items[0].block_height, Some(12));
    assert_eq!(items[0].timestamp, Some(34));
}

#[test]
fn target_and_anchor_present() {
    let mut body = vec![2, 0];
    body.extend(vec![0u8; 64]);
    body.extend(vec![7u8; 32]);
    body.push(1);
    body.extend(vec![0xEE; 32]);
    body.push(1);
    body.extend(vec![0xDD; 32]);
    let block = short_block(&[("k", "v")]);
    body.extend(le(1, 8));
    body.extend(le(block.len() as u64, 8));
    body.extend(block);
    assert_eq!(get_tags_start(&body, 64, 32), Some(2 + 64 + 32 + 33 + 33));
    let item = get_data_item(&body).unwrap();
    assert_eq!(item.tags.len(), 1);
    assert_eq!(item.tags[0].name, "k");
    // a flag of 2 means absent
    let mut body2 = ed25519_item(&[7u8; 32], &[]);
    body2[98] = 2;
    assert_eq!(get_tags_start(&body2, 64, 32), Some(100));
    assert!(get_data_item(&body2).is_ok());
}

#[test]
fn tags_with_zero_count_ignore_block() {
    let mut body = ed25519_item(&[7u8; 32], &[]);
    let n = body.len();
    body[n - 8] = 200;
    assert_eq!(get_tags(&body, 64, 32).unwrap(), vec![]);
}

#[test]
fn integers_little_endian() {
    assert_eq!(byte_array_to_long(&[1, 2]), Some(513));
    assert_eq!(byte_array_to_long(&[]), Some(0));
    assert_eq!(byte_array_to_long(&[0xff; 16]), Some(u128::MAX));
    assert_eq!(byte_array_to_long(&[0xff; 17]), None);
    let mut big = [0u8; 32];
    big[16] = 1;
    assert_eq!(byte_array_to_long(&big), None);
    let mut data = vec![0u8; 32];
    data[0] = 3;
    data[1] = 1;
    assert_eq!(get_item_count(&data).unwrap(), 259);
    assert!(is_parsing_error(&get_item_count(&[0u8; 10])));
}

#[test]
fn registry_table() {
    let table = [
        (1u128, "ARWEAVE", 512usize, 512usize),
        (2, "ED25519", 64, 32),
        (3, "ETHEREUM", 65, 65),
        (4, "SOLANA", 64, 32),
        (5, "INJECTEDAPTOS", 64, 32),
        (6, "MULTIAPTOS", 2052, 1025),
        (7, "TYPEDETHEREUM", 65, 42),
    ];
    for (code, name, sig, key) in table {
        let t = lookup(code).unwrap();
        assert_eq!(t.name(), name);
        assert_eq!(get_signature_length(t), sig);
        assert_eq!(get_owner_length(t), key);
        assert_eq!(get_signature_type(&[code as u8, 0, 9]), Some(t));
    }
    assert_eq!(lookup(0), None);
    assert_eq!(lookup(8), None);
    assert_eq!(get_signature_type(&[2, 1]), None);
    assert_eq!(get_signature_type(&[2, 0]), Some(SignatureType::Ed25519));
}

#[test]
fn offsets_and_slices() {
    assert_eq!(get_bundle_start(0), 32);
    assert_eq!(get_bundle_start(3), 224);
    assert_eq!(get_target_start(64, 32), 98);
    let body: Vec<u8> = (0..120).collect();
    assert_eq!(get_raw_signature(&body, 4), vec![2, 3, 4, 5]);
    assert_eq!(get_raw_owner(&body, 4, 3), &[6, 7, 8]);
}

#[test]
fn id_validity() {
    assert!(!is_id_valid(&[0u8; 32]));
    let mut id = [0u8; 32];
    id[31] = 1;
    assert!(is_id_valid(&id));
    assert!(is_id_valid(&seq_id()));
}

#[test]
fn error_message() {
    let e = parse_bundle(&[0u8; 3]).unwrap_err();
    assert!(!e.message().is_empty());
}
