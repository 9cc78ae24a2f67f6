use chronoturin::label::{decimal_text, frame_file_name, padded_text, INDEX_WIDTH};
use chronoturin::particle::Mode;

#[test]
fn modes_have_console_names() {
    assert_eq!(Mode::Baseline.name(), "NEWTONIAN");
    assert_eq!(Mode::Dilated.name(), "CHRONOTURIN");
}

#[test]
fn modes_have_file_prefixes() {
    assert_eq!(Mode::Baseline.file_prefix(), "newton");
    assert_eq!(Mode::Dilated.file_prefix(), "chrono");
}

#[test]
fn file_names_pad_the_frame_to_three_digits() {
    assert_eq!(frame_file_name(Mode::Baseline, 0), "newton_000.png");
    assert_eq!(frame_file_name(Mode::Baseline, 7), "newton_007.png");
    assert_eq!(frame_file_name(Mode::Dilated, 42), "chrono_042.png");
    assert_eq!(frame_file_name(Mode::Dilated, 149), "chrono_149.png");
}

#[test]
fn file_names_keep_longer_indices_whole() {
    assert_eq!(frame_file_name(Mode::Baseline, 1000), "newton_1000.png");
    assert_eq!(frame_file_name(Mode::Dilated, u32::MAX), "chrono_4294967295.png");
}

#[test]
fn file_names_agree_with_the_formatter() {
    for frame in 0..1200u32 {
        assert_eq!(frame_file_name(Mode::Baseline, frame), format!("newton_{:03}.png", frame));
        assert_eq!(frame_file_name(Mode::Dilated, frame), format!("chrono_{:03}.png", frame));
    }
}

#[test]
fn decimal_text_has_no_leading_zeros() {
    assert_eq!(decimal_text(0), "0");
    assert_eq!(decimal_text(9), "9");
    assert_eq!(decimal_text(10), "10");
    assert_eq!(decimal_text(150), "150");
    assert_eq!(decimal_text(1_000_000), "1000000");
    assert_eq!(decimal_text(u32::MAX), "4294967295");
}

#[test]
fn padded_text_fills_with_zeros() {
    assert_eq!(INDEX_WIDTH, 3);
    assert_eq!(padded_text(5, 3), "005");
    assert_eq!(padded_text(55, 3), "055");
    assert_eq!(padded_text(555, 3), "555");
    assert_eq!(padded_text(5555, 3), "5555");
    assert_eq!(padded_text(0, 0), "0");
    assert_eq!(padded_text(0, 1), "0");
    assert_eq!(padded_text(12, 6), "000012");
}
