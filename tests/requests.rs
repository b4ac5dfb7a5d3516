use asahi_nvram::error::NvramError;
use asahi_nvram::escape::{hex_digit, read_var};
use asahi_nvram::request::{find_byte, parse_assignment, parse_reference, part_by_name};
use apple_nvram::VarType;

fn is_common(t: VarType) -> bool {
    matches!(t, VarType::Common)
}

fn is_system(t: VarType) -> bool {
    matches!(t, VarType::System)
}

#[test]
fn read_var_plain_bytes_pass_through() {
    assert_eq!(read_var("bar").ok().unwrap(), b"bar".to_vec());
    assert_eq!(read_var("").ok().unwrap(), Vec::<u8>::new());
}

#[test]
fn read_var_decodes_escapes() {
    assert_eq!(read_var("%41%42").ok().unwrap(), b"AB".to_vec());
    assert_eq!(read_var("a%00b%ff%Fe").ok().unwrap(), vec![b'a', 0, b'b', 0xff, 0xfe]);
    assert_eq!(read_var("100%25").ok().unwrap(), b"100%".to_vec());
}

#[test]
fn read_var_rejects_malformed_escapes() {
    assert!(matches!(read_var("%zz"), Err(NvramError::InvalidHex)));
    assert!(matches!(read_var("%4"), Err(NvramError::InvalidHex)));
    assert!(matches!(read_var("abc%"), Err(NvramError::InvalidHex)));
    assert!(matches!(read_var("%+1"), Err(NvramError::InvalidHex)));
}

#[test]
fn hex_digit_values() {
    assert_eq!(hex_digit(b'0'), Some(0));
    assert_eq!(hex_digit(b'9'), Some(9));
    assert_eq!(hex_digit(b'a'), Some(10));
    assert_eq!(hex_digit(b'F'), Some(15));
    assert_eq!(hex_digit(b'g'), None);
}

#[test]
fn partition_names() {
    assert!(is_common(part_by_name("common").ok().unwrap()));
    assert!(is_system(part_by_name("system").ok().unwrap()));
    assert!(matches!(part_by_name("Common"), Err(NvramError::UnknownPartition)));
    assert!(matches!(part_by_name(""), Err(NvramError::UnknownPartition)));
}

#[test]
fn find_byte_gives_first_position() {
    assert_eq!(find_byte(b"a:b:c", b':'), Some(1));
    assert_eq!(find_byte(b"abc", b':'), None);
}

#[test]
fn references_decode() {
    let (t, name) = parse_reference("system:boot-args").ok().unwrap();
    assert!(is_system(t));
    assert_eq!(name, b"boot-args".to_vec());
    let (t, name) = parse_reference("common:a:b").ok().unwrap();
    assert!(is_common(t));
    assert_eq!(name, b"a:b".to_vec());
    assert!(matches!(parse_reference("foo"), Err(NvramError::MissingPartitionName)));
    assert!(matches!(parse_reference("other:foo"), Err(NvramError::UnknownPartition)));
}

#[test]
fn assignments_decode() {
    let (t, name, value) = parse_assignment("system:x=%41%42").ok().unwrap();
    assert!(is_system(t));
    assert_eq!(name, b"x".to_vec());
    assert_eq!(value, b"AB".to_vec());
    let (_, name, value) = parse_assignment("common:k=a=b").ok().unwrap();
    assert_eq!(name, b"k".to_vec());
    assert_eq!(value, b"a=b".to_vec());
    assert!(matches!(parse_assignment("common:foo"), Err(NvramError::MissingValue)));
    assert!(matches!(parse_assignment("foo=bar"), Err(NvramError::MissingPartitionName)));
    assert!(matches!(parse_assignment("nope:foo=bar"), Err(NvramError::UnknownPartition)));
    assert!(matches!(parse_assignment("common:foo=%g0"), Err(NvramError::InvalidHex)));
}
