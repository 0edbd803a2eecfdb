use hummingbird::context::{normalize_separators, ContextBundle, ContextGatherer, Selection};
use std::path::PathBuf;

#[test]
fn glob_matching_with_and_without_dot_prefix() {
    assert!(ContextGatherer::glob_match("**/*.rs", "src/main.rs"));
    assert!(ContextGatherer::glob_match("**/*.rs", "main.rs"));
    assert!(!ContextGatherer::glob_match("**/*.rs", "readme.md"));
    assert!(ContextGatherer::glob_match("target/**", "target/debug/x"));
    // an invalid pattern matches everything
    assert!(ContextGatherer::glob_match("[", "anything/at/all"));
}

#[test]
fn binary_detection_looks_at_the_first_8192_bytes() {
    assert!(ContextGatherer::is_binary(&[0u8, 159, 146, 150]));
    assert!(ContextGatherer::is_binary(&[255, 0, 1]));
    assert!(!ContextGatherer::is_binary(b"fn main() {}"));
    let mut late = vec![b'a'; 9000];
    late[8500] = 0;
    assert!(!ContextGatherer::is_binary(&late));
    late[8191] = 0;
    assert!(ContextGatherer::is_binary(&late));
}

#[test]
fn separators_are_normalized() {
    assert_eq!(normalize_separators("src\\utils\\helper.rs"), "src/utils/helper.rs");
}

#[test]
fn selection_of_files() {
    let g = ContextGatherer::new(100, vec!["**/*".into()], vec!["target/**".into()]);
    assert_eq!(g.select("src/main.rs", &[], 10), Selection::Read);
    assert_eq!(g.select("target/out.rs", &[], 10), Selection::Ignored);
    assert_eq!(g.select("big.txt", &[], 200), Selection::TooLarge);
    assert_eq!(g.select("readme.md", &["**/*.rs".to_string()], 10), Selection::Ignored);
    assert_eq!(g.select("src/utils/helper.rs", &["**/*.rs".to_string()], 10), Selection::Read);
}

#[test]
fn default_gatherer() {
    let g = ContextGatherer::default();
    assert_eq!(g.max_file_size, 1_048_576);
    assert!(g.is_excluded(".git/HEAD"));
    assert!(!g.is_excluded("src/lib.rs"));
}

#[test]
fn oversize_warning_text() {
    let g = ContextGatherer::new(100, vec![], vec![]);
    assert_eq!(g.oversize_warning("big.txt"), "WARN: skipping big.txt \u{2014} exceeds 100 bytes");
}

#[test]
fn bundle_keeps_its_total() {
    let mut b = ContextBundle::new();
    b.add_file(PathBuf::from("a.rs"), "fn a() {}".into(), 9);
    b.add_file(PathBuf::from("b.rs"), "x".into(), 1);
    b.skip(PathBuf::from("big.bin"));
    assert_eq!(b.total_bytes, 10);
    assert_eq!(b.files.len(), 2);
    assert_eq!(b.skipped, vec![PathBuf::from("big.bin")]);
    let d = ContextBundle::default();
    assert!(d.files.is_empty());
}

#[test]
fn read_files_are_taken_or_skipped() {
    let mut b = ContextBundle::new();
    b.take_read(std::path::PathBuf::from("main.rs"), b"fn main() {}", 12);
    b.take_read(std::path::PathBuf::from("lib.rs"), b"pub fn foo() {}", 15);
    assert_eq!(b.files.len(), 2);
    assert_eq!(b.files[0].content, "fn main() {}");
    assert_eq!(b.files[1].content, "pub fn foo() {}");
    assert!(b.skipped.is_empty());
    assert_eq!(b.total_bytes, 27);
    b.take_read(std::path::PathBuf::from("binary.bin"), &[0u8, 1, 2, 3, 0, 255], 6);
    assert_eq!(b.files.len(), 2);
    assert_eq!(b.skipped, vec![std::path::PathBuf::from("binary.bin")]);
    assert_eq!(b.total_bytes, 27);
    b.take_read(std::path::PathBuf::from("odd.txt"), &[b'a', 0xff, b'b'], 3);
    assert_eq!(b.files[2].content, "a\u{fffd}b");
    assert_eq!(b.total_bytes, 30);
}
