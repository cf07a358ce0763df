use msi_extract::decode_default_dir;
use msi_extract::decode_filename;

#[test]
fn decode_plain_filename() {
    assert_eq!(decode_filename("ABC"), "ABC");
}

#[test]
fn decode_long_filename() {
    assert_eq!(decode_filename("ABC|Long Name"), "Long Name");
}

#[test]
fn decode_filename_empty_long_side() {
    assert_eq!(decode_filename("SHORT|"), "");
}

#[test]
fn decode_filename_keeps_later_pipes() {
    assert_eq!(decode_filename("A|B|C"), "B|C");
}

#[test]
fn decode_dir_target_with_plain_source() {
    assert_eq!(decode_default_dir("TARG|Target Dir:SOURCE"), "Target Dir");
}

#[test]
fn decode_dir_both_sides_encoded() {
    assert_eq!(
        decode_default_dir("TARGT|Target Name:SOURC|Source Name"),
        "Target Name"
    );
}

#[test]
fn decode_dir_plain() {
    assert_eq!(decode_default_dir("Plain"), "Plain");
}

#[test]
fn decode_dir_colon_without_pipe() {
    assert_eq!(decode_default_dir("Target:Source"), "Target");
}

#[test]
fn decode_dir_pipe_without_colon() {
    assert_eq!(decode_default_dir("SHORT|Long Name"), "Long Name");
}
