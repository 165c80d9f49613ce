use etw_reader::address::{is_kernel_address, kernel_space_start};
use etw_reader::decode::{decode_addresses, DecodeError};
use etw_reader::identity::{effective_thread_id, names_process_image, RecordKind};
use etw_reader::traits::null_terminated;
use etw_reader::{big_fixtures_dir, fixtures_dir, EncodeUtf16};

#[test]
fn kernel_boundaries() {
    assert_eq!(kernel_space_start(4), 0x8000_0000);
    assert_eq!(kernel_space_start(8), 0xFFFF_0000_0000_0000);
    assert!(is_kernel_address(0x8000_0000, 4));
    assert!(!is_kernel_address(0x7FFF_FFFF, 4));
    assert!(is_kernel_address(0xFFFF_0000_0000_0000, 8));
    assert!(!is_kernel_address(0xFFFE_FFFF_FFFF_FFFF, 8));
    assert!(!is_kernel_address(0x8000_0000, 8));
}

#[test]
fn utf16_is_null_terminated() {
    assert_eq!("ab".to_utf16(), vec![97, 98, 0]);
    assert_eq!("".to_utf16(), vec![0]);
    assert_eq!(String::from("\u{e9}\u{1F600}").to_utf16(), vec![0xE9, 0xD83D, 0xDE00, 0]);
}

#[test]
fn fixture_directories() {
    assert_eq!(fixtures_dir("/src/tools/benchmarks"), "/src/tools/benchmarks/../../fixtures");
    assert_eq!(
        big_fixtures_dir("/src/tools/benchmarks"),
        "/src/tools/benchmarks/../../big-benchmark-fixtures"
    );
}

#[test]
fn thread_attribution() {
    assert_eq!(effective_thread_id(RecordKind::Sample, 1, 2), 2);
    assert_eq!(effective_thread_id(RecordKind::ContextSwitch, 1, 2), 2);
    assert_eq!(effective_thread_id(RecordKind::StackWalk, 1, 2), 1);
    assert_eq!(effective_thread_id(RecordKind::Other, 1, 2), 1);
    assert!(names_process_image(RecordKind::ProcessStart));
    assert!(names_process_image(RecordKind::ProcessRundownStart));
    assert!(names_process_image(RecordKind::ProcessRundownEnd));
    assert!(!names_process_image(RecordKind::Sample));
}

#[test]
fn payload_decodes_to_little_endian_words() {
    let bytes = [1u8, 0, 0, 0, 0, 0, 0, 0, 0, 0, 0, 0, 0, 0, 0xFF, 0xFF, 0x78, 0x56, 0x34, 0x12, 0, 0, 0, 0];
    assert_eq!(decode_addresses(&bytes), Ok(vec![1, 0xFFFF_0000_0000_0000, 0x1234_5678]));
    assert_eq!(decode_addresses(&[]), Ok(vec![]));
    assert_eq!(decode_addresses(&bytes[..9]), Err(DecodeError::PartialWord { len: 9 }));
}

#[test]
fn null_terminator_is_appended() {
    assert_eq!(null_terminated(vec![0x41, 0xD83D, 0xDE00]), vec![0x41, 0xD83D, 0xDE00, 0]);
    assert_eq!(null_terminated(vec![]), vec![0]);
}
