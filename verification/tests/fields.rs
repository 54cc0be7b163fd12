use netflow_generator::config::schema::{FieldValue, Record, RecordEntry};
use netflow_generator::generator::field_serializer::{
    get_field_value, ipfix_field_id_to_name, serialize_field_value, v9_field_id_to_name,
};
use netflow_generator::generator::flowset::{field_id_to_name, Registry};
use netflow_generator::text::{joined, joined_number, str_eq};

fn number(v: u64) -> FieldValue {
    FieldValue::Unsigned(v)
}

fn text(s: &str) -> FieldValue {
    FieldValue::Text(s.to_string())
}

#[test]
fn unsigned_values_are_big_endian() {
    assert_eq!(serialize_field_value(&number(6), 1), vec![6]);
    assert_eq!(serialize_field_value(&number(443), 2), vec![0x01, 0xbb]);
    assert_eq!(serialize_field_value(&number(65000), 4), vec![0, 0, 0xfd, 0xe8]);
    assert_eq!(
        serialize_field_value(&number(0x0102030405060708), 8),
        vec![1, 2, 3, 4, 5, 6, 7, 8]
    );
}

#[test]
fn unsigned_values_wrap_to_the_field_length() {
    assert_eq!(serialize_field_value(&number(0x1ff), 1), vec![0xff]);
    assert_eq!(serialize_field_value(&number(0x12345), 2), vec![0x23, 0x45]);
    assert_eq!(serialize_field_value(&number(0x1_0000_0001), 4), vec![0, 0, 0, 1]);
    assert_eq!(serialize_field_value(&number(u64::MAX), 8), vec![0xff; 8]);
    assert_eq!(serialize_field_value(&number(u64::MAX), 4), vec![0xff; 4]);
}

#[test]
fn unsigned_values_in_other_lengths_are_zeros() {
    assert_eq!(serialize_field_value(&number(0x010203), 3), vec![0, 0, 0]);
    assert_eq!(serialize_field_value(&number(7), 0), Vec::<u8>::new());
    assert_eq!(serialize_field_value(&number(7), 16), vec![0; 16]);
    assert_eq!(serialize_field_value(&number(7), 5), vec![0; 5]);
}

#[test]
fn ipv4_text_is_four_octets_in_a_four_byte_field() {
    assert_eq!(serialize_field_value(&text("192.168.10.5"), 4), vec![192, 168, 10, 5]);
    assert_eq!(serialize_field_value(&text("0.0.0.0"), 4), vec![0, 0, 0, 0]);
    assert_eq!(serialize_field_value(&text("255.255.255.255"), 4), vec![255; 4]);
}

#[test]
fn ipv4_text_in_another_length_is_zeros() {
    assert_eq!(serialize_field_value(&text("192.168.10.5"), 2), vec![0, 0]);
    assert_eq!(serialize_field_value(&text("192.168.10.5"), 8), vec![0; 8]);
    assert_eq!(serialize_field_value(&text("192.168.10.5"), 1), vec![0]);
}

#[test]
fn other_text_and_other_values_are_zeros() {
    assert_eq!(serialize_field_value(&text("hello"), 4), vec![0; 4]);
    assert_eq!(serialize_field_value(&text("1.2.3"), 4), vec![0; 4]);
    assert_eq!(serialize_field_value(&text("01.2.3.4"), 4), vec![0; 4]);
    assert_eq!(serialize_field_value(&text(""), 2), vec![0; 2]);
    assert_eq!(serialize_field_value(&FieldValue::Other, 8), vec![0; 8]);
    assert_eq!(serialize_field_value(&FieldValue::Other, 3), vec![0; 3]);
}

#[test]
fn output_length_is_the_field_length() {
    for len in 0u16..40 {
        for value in [number(1), text("1.2.3.4"), text("x"), FieldValue::Other] {
            assert_eq!(serialize_field_value(&value, len).len(), len as usize);
        }
    }
}

#[test]
fn lookup_finds_the_first_entry_with_the_key() {
    let record = Record {
        entries: vec![
            RecordEntry { key: "a".to_string(), value: number(1) },
            RecordEntry { key: "b".to_string(), value: number(2) },
            RecordEntry { key: "a".to_string(), value: number(3) },
        ],
    };
    assert!(matches!(get_field_value(&record, "a"), Some(FieldValue::Unsigned(1))));
    assert!(matches!(get_field_value(&record, "b"), Some(FieldValue::Unsigned(2))));
    assert!(get_field_value(&record, "c").is_none());
    assert!(get_field_value(&Record { entries: vec![] }, "a").is_none());
}

#[test]
fn v9_ids_map_to_record_keys() {
    assert_eq!(v9_field_id_to_name(1), "in_bytes");
    assert_eq!(v9_field_id_to_name(8), "src_addr");
    assert_eq!(v9_field_id_to_name(12), "dst_addr");
    assert_eq!(v9_field_id_to_name(24), "out_pkts");
    assert_eq!(v9_field_id_to_name(0), "unknown");
    assert_eq!(v9_field_id_to_name(25), "unknown");
}

#[test]
fn ipfix_ids_map_to_record_keys() {
    assert_eq!(ipfix_field_id_to_name(1), "octet_delta_count");
    assert_eq!(ipfix_field_id_to_name(8), "source_ipv4_address");
    assert_eq!(ipfix_field_id_to_name(22), "flow_start_sys_up_time");
    assert_eq!(ipfix_field_id_to_name(19), "unknown");
    assert_eq!(ipfix_field_id_to_name(20), "unknown");
}

#[test]
fn registries_are_told_apart() {
    assert_eq!(field_id_to_name(Registry::V9, 2), "in_pkts");
    assert_eq!(field_id_to_name(Registry::IPFix, 2), "packet_delta_count");
}

#[test]
fn strings_compare_by_content() {
    assert!(str_eq("", ""));
    assert!(str_eq("abc", "abc"));
    assert!(!str_eq("abc", "abd"));
    assert!(!str_eq("abc", "ab"));
    assert!(str_eq("grüße", "grüße"));
    assert!(!str_eq("grüße", "grüsse"));
}

#[test]
fn numbers_are_written_in_decimal() {
    assert_eq!(joined_number("n=", 0), "n=0");
    assert_eq!(joined_number("n=", 7), "n=7");
    assert_eq!(joined_number("n=", 10), "n=10");
    assert_eq!(joined_number("", 1234567890), "1234567890");
    assert_eq!(joined_number("max ", u64::MAX), "max 18446744073709551615");
    assert_eq!(joined("a", "b"), "ab");
}
