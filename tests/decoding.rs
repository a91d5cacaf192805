use zkbench::hexcodec::{decode_data, decode_data_list, parse_quantity, ParseError};
use zkbench::witness::{BlockField, BlockInfo, Witness, WitnessList};

fn strings(items: &[&str]) -> Vec<String> {
    items.iter().map(|s| s.to_string()).collect()
}

#[test]
fn quantity_parses_block_number() {
    assert_eq!(parse_quantity("0x10"), Ok(16));
    assert_eq!(parse_quantity("0x1263d4f"), Ok(19_283_279));
    assert_eq!(parse_quantity("0xABCdef"), Ok(0xabcdef));
    assert_eq!(parse_quantity("0x0"), Ok(0));
}

#[test]
fn quantity_at_the_largest_value() {
    assert_eq!(parse_quantity("0xffffffffffffffff"), Ok(u64::MAX));
    assert_eq!(parse_quantity("0x10000000000000000"), Err(ParseError::Overflow));
    assert_eq!(parse_quantity("0x0000000000000000001"), Ok(1));
}

#[test]
fn quantity_rejections() {
    assert_eq!(parse_quantity("16"), Err(ParseError::MissingPrefix));
    assert_eq!(parse_quantity(""), Err(ParseError::MissingPrefix));
    assert_eq!(parse_quantity("0X10"), Err(ParseError::MissingPrefix));
    assert_eq!(parse_quantity("0x"), Err(ParseError::Empty));
    assert_eq!(parse_quantity("0x1g"), Err(ParseError::BadDigit));
    assert_eq!(parse_quantity("0x0x1"), Err(ParseError::BadDigit));
}

#[test]
fn data_decodes_pairs_of_digits() {
    assert_eq!(decode_data("0x0aFF"), Ok(vec![0x0a, 0xff]));
    assert_eq!(decode_data("0x"), Ok(vec![]));
    assert_eq!(decode_data("0xdeadbeef"), Ok(vec![0xde, 0xad, 0xbe, 0xef]));
}

#[test]
fn data_rejections() {
    assert_eq!(decode_data("0x123"), Err(ParseError::OddLength));
    assert_eq!(decode_data("0xgg"), Err(ParseError::BadDigit));
    assert_eq!(decode_data("abcd"), Err(ParseError::MissingPrefix));
}

#[test]
fn data_list_reports_first_bad_entry() {
    assert_eq!(
        decode_data_list(&strings(&["0x01", "0x0203"])),
        Ok(vec![vec![1], vec![2, 3]])
    );
    assert_eq!(
        decode_data_list(&strings(&["0x01", "0x1", "zz"])),
        Err((1, ParseError::OddLength))
    );
}

#[test]
fn witness_from_hex_lists() {
    let w = Witness::from_hex_lists(
        &strings(&["0xc0", "0x01"]),
        &strings(&["0x6000", "0x6000"]),
        &strings(&["0xc1"]),
        &strings(&[]),
    )
    .unwrap();
    assert_eq!(w.state, vec![vec![0xc0], vec![0x01]]);
    assert_eq!(w.codes, vec![vec![0x60, 0x00], vec![0x60, 0x00]]);
    assert_eq!(w.headers, vec![vec![0xc1]]);
    assert!(w.keys.is_empty());
}

#[test]
fn witness_error_names_list_and_entry() {
    let e = Witness::from_hex_lists(
        &strings(&["0xc0"]),
        &strings(&["0x60"]),
        &strings(&["0x01", "0x02", "0xq1"]),
        &strings(&["bad"]),
    )
    .err()
    .unwrap();
    assert_eq!(e.list, WitnessList::Headers);
    assert_eq!(e.index, 2);
    assert_eq!(e.error, ParseError::BadDigit);
}

#[test]
fn block_fields_parse() {
    let b = BlockInfo::from_rpc_fields("0x1263d4f", "0x01ab", "0xff").unwrap();
    assert_eq!(b.number, 19_283_279);
    assert_eq!(b.hash, vec![0x01, 0xab]);
    assert_eq!(b.parent_hash, vec![0xff]);
}

#[test]
fn block_field_errors() {
    let e = BlockInfo::from_rpc_fields("12", "0x01", "0x02").err().unwrap();
    assert_eq!(e.field, BlockField::Number);
    assert_eq!(e.error, ParseError::MissingPrefix);
    let e = BlockInfo::from_rpc_fields("0x12", "0x01", "0x0").err().unwrap();
    assert_eq!(e.field, BlockField::ParentHash);
    assert_eq!(e.error, ParseError::OddLength);
}
