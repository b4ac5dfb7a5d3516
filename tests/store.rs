use apple_nvram::NvramWriter;
use asahi_nvram::commands::{describe_variable, read_variable, stage_deletes, stage_writes};
use asahi_nvram::error::NvramError;
use asahi_nvram::image::image_check;
use asahi_nvram::store::Nvram;

const BANK: usize = 0x10000;

fn empty_image(banks: usize) -> Vec<u8> {
    let header: [u8; 24] = [
        0x33, 0x56, 0x56, 0x4e, 0x00, 0x00, 0x01, 0x00, 0x01, 0x00, 0x00, 0x00, 0xfe, 0x5a, 0x01,
        0x00, 0x00, 0x40, 0x00, 0x00, 0x00, 0xc0, 0x00, 0x00,
    ];
    let mut data = vec![0xFF; BANK * banks];
    data[..24].copy_from_slice(&header);
    data
}

struct MemFlash {
    data: Vec<u8>,
    fail: bool,
}

impl NvramWriter for MemFlash {
    fn erase_if_needed(&mut self, offset: u32, size: usize) {
        for b in self.data.iter_mut().skip(offset as usize).take(size) {
            *b = 0xFF;
        }
    }

    fn write_all(&mut self, offset: u32, buf: &[u8]) -> std::io::Result<()> {
        if self.fail {
            return Err(std::io::Error::new(std::io::ErrorKind::Other, "write failed"));
        }
        for (d, s) in self.data.iter_mut().skip(offset as usize).zip(buf.iter()) {
            *d &= *s;
        }
        Ok(())
    }
}

fn args(items: &[&str]) -> Vec<String> {
    items.iter().map(|s| s.to_string()).collect()
}

#[test]
fn image_without_valid_bank_is_a_parse_error() {
    let data = vec![0u8; 2 * BANK];
    assert!(matches!(Nvram::parse(&data), Err(NvramError::Parse)));
}

#[test]
fn write_read_delete_scenario() {
    let data = empty_image(2);
    let mut flash = MemFlash { data: data.clone(), fail: false };
    let mut nv = Nvram::parse(&data).ok().unwrap();

    stage_writes(&mut nv, &args(&["common:foo=bar"])).ok().unwrap();
    nv.apply(&mut flash).ok().unwrap();
    assert_eq!(read_variable(&mut nv, "common:foo").ok().unwrap(), b"bar".to_vec());
    assert_eq!(describe_variable(&mut nv, "common:foo").ok().unwrap(), "common:foo=bar");

    stage_deletes(&mut nv, &args(&["common:foo"])).ok().unwrap();
    nv.apply(&mut flash).ok().unwrap();
    assert!(matches!(read_variable(&mut nv, "common:foo"), Err(NvramError::VariableNotFound)));

    stage_writes(&mut nv, &args(&["system:x=%41%42"])).ok().unwrap();
    nv.apply(&mut flash).ok().unwrap();
    assert_eq!(read_variable(&mut nv, "system:x").ok().unwrap(), b"AB".to_vec());
}

#[test]
fn written_image_parses_back() {
    let data = empty_image(2);
    let mut flash = MemFlash { data: data.clone(), fail: false };
    let mut nv = Nvram::parse(&data).ok().unwrap();
    stage_writes(&mut nv, &args(&["common:foo=bar", "system:x=1"])).ok().unwrap();
    nv.apply(&mut flash).ok().unwrap();
    stage_writes(&mut nv, &args(&["common:foo=baz"])).ok().unwrap();
    nv.apply(&mut flash).ok().unwrap();

    let written = flash.data.clone();
    let mut again = Nvram::parse(&written).ok().unwrap();
    assert_eq!(read_variable(&mut again, "common:foo").ok().unwrap(), b"baz".to_vec());
    assert_eq!(read_variable(&mut again, "system:x").ok().unwrap(), b"1".to_vec());
}

#[test]
fn failed_write_keeps_variables() {
    let data = empty_image(2);
    let mut nv = Nvram::parse(&data).ok().unwrap();
    stage_writes(&mut nv, &args(&["common:foo=bar"])).ok().unwrap();
    let mut broken = MemFlash { data: data.clone(), fail: true };
    assert!(matches!(nv.apply(&mut broken), Err(NvramError::ApplyError(_))));
    assert_eq!(read_variable(&mut nv, "common:foo").ok().unwrap(), b"bar".to_vec());
    assert_eq!(broken.data, data);
}

#[test]
fn oversized_bank_is_section_too_big() {
    let data = empty_image(2);
    let mut flash = MemFlash { data: data.clone(), fail: false };
    let mut nv = Nvram::parse(&data).ok().unwrap();
    let big = "a".repeat(BANK);
    stage_writes(&mut nv, &vec![format!("common:big={}", big)]).ok().unwrap();
    assert!(matches!(nv.apply(&mut flash), Err(NvramError::SectionTooBig)));
}

#[test]
fn delete_absent_variable_is_no_op() {
    let data = empty_image(2);
    let mut nv = Nvram::parse(&data).ok().unwrap();
    stage_writes(&mut nv, &args(&["common:foo=bar"])).ok().unwrap();
    stage_deletes(&mut nv, &args(&["system:foo", "common:missing"])).ok().unwrap();
    assert_eq!(read_variable(&mut nv, "common:foo").ok().unwrap(), b"bar".to_vec());
    assert_eq!(nv.lines(), vec!["common:foo=bar".to_string()]);
}

#[test]
fn bad_arguments_stop_staging() {
    let data = empty_image(2);
    let mut nv = Nvram::parse(&data).ok().unwrap();
    assert!(matches!(
        stage_writes(&mut nv, &args(&["common:a=1", "common:b"])),
        Err(NvramError::MissingValue)
    ));
    assert!(matches!(stage_deletes(&mut nv, &args(&["x:y"])), Err(NvramError::UnknownPartition)));
    assert!(matches!(read_variable(&mut nv, "foo"), Err(NvramError::MissingPartitionName)));
    assert!(matches!(describe_variable(&mut nv, "common:none"), Err(NvramError::VariableNotFound)));
}

#[test]
fn binary_values_survive_the_device() {
    let data = empty_image(2);
    let mut flash = MemFlash { data: data.clone(), fail: false };
    let mut nv = Nvram::parse(&data).ok().unwrap();
    stage_writes(&mut nv, &args(&["system:bin=%00%01%7f%80%fe", "common:empty="])).ok().unwrap();
    nv.apply(&mut flash).ok().unwrap();
    let written = flash.data.clone();
    let mut again = Nvram::parse(&written).ok().unwrap();
    assert_eq!(
        read_variable(&mut again, "system:bin").ok().unwrap(),
        vec![0x00, 0x01, 0x7f, 0x80, 0xfe]
    );
    assert_eq!(read_variable(&mut again, "common:empty").ok().unwrap(), Vec::<u8>::new());
}

#[test]
fn flipped_value_bit_fails_to_parse() {
    let data = empty_image(2);
    let mut flash = MemFlash { data: data.clone(), fail: false };
    let mut nv = Nvram::parse(&data).ok().unwrap();
    stage_writes(&mut nv, &args(&["common:foo=bar"])).ok().unwrap();
    nv.apply(&mut flash).ok().unwrap();
    let mut written = flash.data.clone();
    assert!(Nvram::parse(&written).is_ok());
    let at = written.windows(3).position(|w| w == b"bar").unwrap();
    written[at + 1] ^= 0x01;
    assert!(matches!(Nvram::parse(&written), Err(NvramError::Parse)));
}

#[test]
fn image_check_accepts_a_fresh_image() {
    assert!(image_check(&empty_image(2)));
    assert!(!image_check(&empty_image(1)));
}

#[test]
fn oversized_store_header_is_refused() {
    let mut data = empty_image(2);
    data[4..8].copy_from_slice(&0x20000u32.to_le_bytes());
    assert!(!image_check(&data));
    assert!(matches!(Nvram::parse(&data), Err(NvramError::Parse)));
}

#[test]
fn valid_bank_with_generation_zero_is_refused() {
    let mut data = vec![0xFF; 2 * BANK];
    let fresh = empty_image(1);
    data[BANK..BANK + 24].copy_from_slice(&fresh[..24]);
    data[BANK + 8..BANK + 12].copy_from_slice(&0u32.to_le_bytes());
    assert!(!image_check(&data));
    assert!(matches!(Nvram::parse(&data), Err(NvramError::Parse)));
    data[BANK + 8..BANK + 12].copy_from_slice(&1u32.to_le_bytes());
    assert!(image_check(&data));
    assert!(Nvram::parse(&data).is_ok());
}

#[test]
fn record_without_name_terminator_is_refused() {
    let mut data = empty_image(2);
    let rec = 24;
    data[rec..rec + 36].copy_from_slice(&[0u8; 36]);
    data[rec] = 0xAA;
    data[rec + 1] = 0x55;
    data[rec + 2] = 0x7F;
    data[rec + 8..rec + 12].copy_from_slice(&0u32.to_le_bytes());
    data[rec + 12..rec + 16].copy_from_slice(&1u32.to_le_bytes());
    assert!(!image_check(&data));
    assert!(matches!(Nvram::parse(&data), Err(NvramError::Parse)));
}

#[test]
fn insert_and_remove_on_the_store() {
    let data = empty_image(2);
    let mut nv = Nvram::parse(&data).ok().unwrap();
    nv.prepare_for_write().ok().unwrap();
    nv.insert_variable(b"k", vec![0xFF, 0x00], apple_nvram::VarType::System).ok().unwrap();
    assert_eq!(nv.value_of(b"k", apple_nvram::VarType::System), Some(vec![0xFF, 0x00]));
    assert_eq!(nv.value_of(b"k", apple_nvram::VarType::Common), None);
    assert!(nv.line_of(b"k", apple_nvram::VarType::System).is_some());
    nv.remove_variable(b"k", apple_nvram::VarType::System);
    assert_eq!(nv.value_of(b"k", apple_nvram::VarType::System), None);
}
