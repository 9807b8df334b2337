use joshuto::util::format::file_size_to_string;
use joshuto::util::text::{chars_of, join, string_of, text_contains, text_eq};
use joshuto::util::unix::open_with_command;

#[test]
fn sizes_below_the_first_unit_are_in_bytes() {
    assert_eq!(file_size_to_string(0), "0 B");
    assert_eq!(file_size_to_string(7), "7 B");
    assert_eq!(file_size_to_string(512), "512 B");
    assert_eq!(file_size_to_string(1024), "1024 B");
}

#[test]
fn sizes_are_cut_to_two_decimals() {
    assert_eq!(file_size_to_string(1025), "1.00 K");
    assert_eq!(file_size_to_string(1536), "1.50 K");
    assert_eq!(file_size_to_string(2047), "1.99 K");
    assert_eq!(file_size_to_string(10 * 1024 * 1024), "10.00 M");
    assert_eq!(file_size_to_string(10 * 1024 * 1024 + 512 * 1024), "10.50 M");
    assert_eq!(file_size_to_string(1024 * 1024), "1024.00 K");
    assert_eq!(file_size_to_string(3 * 1024 * 1024 * 1024), "3.00 G");
    assert_eq!(file_size_to_string(5 * 1024 * 1024 * 1024 * 1024), "5.00 T");
    assert_eq!(file_size_to_string(1 << 51), "2.00 P");
    assert_eq!(file_size_to_string(u64::MAX), "15.99 E");
}

#[test]
fn texts_are_joined_with_a_separator() {
    assert_eq!(join(&vec![], ", "), "");
    assert_eq!(join(&vec!["a".to_string()], ", "), "a");
    assert_eq!(join(&vec!["a".to_string(), "b".to_string(), "c".to_string()], ", "), "a, b, c");
}

#[test]
fn strings_and_characters_convert_both_ways() {
    let chars = chars_of("héllo");
    assert_eq!(chars, vec!['h', 'é', 'l', 'l', 'o']);
    assert_eq!(string_of(&chars), "héllo");
    assert_eq!(string_of(&vec![]), "");
}

#[test]
fn text_search_finds_a_part_anywhere() {
    assert!(text_contains("readme.md", "me"));
    assert!(text_contains("readme.md", ""));
    assert!(text_contains("readme.md", "readme.md"));
    assert!(text_contains("readme.md", ".md"));
    assert!(!text_contains("readme.md", "readme.mdx"));
    assert!(!text_contains("readme.md", "mr"));
    assert!(!text_contains("", "a"));
    assert!(text_contains("", ""));
    assert!(text_eq("a", "a"));
    assert!(!text_eq("a", "b"));
}

#[test]
fn a_command_line_ends_with_the_path() {
    let args = vec!["vim".to_string(), "-n".to_string()];
    assert_eq!(open_with_command("/tmp/x", &args), vec!["vim", "-n", "/tmp/x"]);
    assert_eq!(open_with_command("f", &vec!["cat".to_string()]), vec!["cat", "f"]);
}
