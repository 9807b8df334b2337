use joshuto::util::unix::{is_executable, stringify_mode};

#[test]
fn regular_file_mode_is_rendered() {
    assert_eq!(stringify_mode(0o100644), "-rw-r--r--");
}

#[test]
fn directory_mode_is_rendered() {
    assert_eq!(stringify_mode(0o040755), "drwxr-xr-x");
}

#[test]
fn execute_bits_are_found() {
    assert!(is_executable(0o100755));
    assert!(is_executable(0o100010));
    assert!(!is_executable(0o100644));
}

#[test]
fn modes_are_rendered_by_their_high_bits() {
    assert_eq!(stringify_mode(0o120777), "lrwxrwxrwx");
    assert_eq!(stringify_mode(0o140600), "srw-------");
    assert_eq!(stringify_mode(0o060660), "brw-rw----");
    assert_eq!(stringify_mode(0o010644), "frw-r--r--");
    assert_eq!(stringify_mode(0o020620), "lrw--w----");
    assert_eq!(stringify_mode(0o000000), "----------");
    assert_eq!(stringify_mode(0o000111), "---x--x--x");
    assert_eq!(stringify_mode(0o101644), "rw-r--r--");
    assert_eq!(stringify_mode(0o000001), "---------x");
}
