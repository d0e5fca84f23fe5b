//! Tests for the path/line/column resolver and its companions.  The
//! directory the tests run from is read-only and holds `src/lib.rs` but no
//! `Cargo.toml`, so scenarios that need an existing file use `src/lib.rs`,
//! and scenarios about a file that exists once a suffix is stripped go
//! through the candidate list with the existence answers spelled out.

use lapce_cli::LineCol;
use lapce_cli::OpenPathsNotification;
use lapce_cli::PathKind;
use lapce_cli::PathObject;
use lapce_cli::build_open_paths;
use lapce_cli::open_paths_notification;
use lapce_cli::parse_file_line_column;
use lapce_cli::parse_usize;
use lapce_cli::parse_vi_like_syntax;
use lapce_cli::resolve_against;
use lapce_cli::resolve_candidates;
use lapce_cli::write_text_with_sep_to;

#[test]
fn test_absolute_path() {
    let (cands, fallback) = resolve_candidates(
        "/Users/pj/.dev/lapce/lapce/Cargo.toml:55",
        Some("Cargo.toml:55"),
    );
    // the raw path does not exist; `Cargo.toml` with the suffix stripped does
    assert_eq!(
        resolve_against(&cands, &vec![false, true, false], fallback),
        PathObject::from(String::from("Cargo.toml"), 55, 1),
    );
}

#[test]
fn test_relative_path() {
    assert_eq!(
        parse_file_line_column("./lapce-core/../Cargo.toml"),
        PathObject::from_path(String::from("Cargo.toml")),
    );
}

#[test]
fn test_relative_path_with_line() {
    let (cands, fallback) = resolve_candidates("Cargo.toml:55", Some("Cargo.toml:55"));
    // `Cargo.toml:55` is no file; `Cargo.toml` is
    assert_eq!(
        resolve_against(&cands, &vec![false, true, false], fallback),
        PathObject::from(String::from("Cargo.toml"), 55, 1),
    );
}

#[test]
fn test_relative_path_with_linecol() {
    let (cands, fallback) = resolve_candidates("Cargo.toml:55:3", Some("Cargo.toml:55:3"));
    // `Cargo.toml:55:3` is no file; `Cargo.toml` with both tokens stripped is
    assert_eq!(
        resolve_against(&cands, &vec![false, true, false, false], fallback),
        PathObject::from(String::from("Cargo.toml"), 55, 3),
    );
}

#[test]
fn test_relative_path_with_none() {
    assert_eq!(
        parse_file_line_column("Cargo.toml:12:623:352"),
        PathObject::from_path(String::from("Cargo.toml:12:623:352")),
    );
}

#[test]
fn existing_path_returned_verbatim() {
    assert_eq!(
        parse_file_line_column("src/lib.rs"),
        PathObject::from_path(String::from("src/lib.rs")),
    );
    assert_eq!(
        parse_file_line_column("tests/cli.rs"),
        PathObject::from_path(String::from("tests/cli.rs")),
    );
}

#[test]
fn no_normal_final_component_returns_argument() {
    assert_eq!(parse_file_line_column(".."), PathObject::from_path(String::from("..")));
    assert_eq!(parse_file_line_column("/"), PathObject::from_path(String::from("/")));
}

#[test]
fn zero_line_is_not_rejected() {
    let (cands, fallback) = resolve_candidates("Cargo.toml:0", Some("Cargo.toml:0"));
    assert_eq!(
        resolve_against(&cands, &vec![false, true, false], fallback),
        PathObject::from(String::from("Cargo.toml"), 0, 1),
    );
}

#[test]
fn overflowing_suffix_reads_as_filename() {
    assert_eq!(
        parse_file_line_column("Cargo.toml:99999999999999999999999999"),
        PathObject::from_path(String::from("Cargo.toml:99999999999999999999999999")),
    );
}

#[test]
fn from_path_keeps_the_path() {
    let p = PathObject::from_path(String::from("a:b/c d.txt"));
    assert_eq!(p.path, String::from("a:b/c d.txt"));
    assert_eq!(p.linecol, None);
    let q = PathObject::from(String::from("x"), 7, 9);
    assert_eq!(q.path, String::from("x"));
    assert_eq!(q.linecol, Some(LineCol { line: 7, column: 9 }));
}

#[test]
fn parse_vi_like_syntax_cases() {
    assert_eq!(parse_vi_like_syntax("+42"), Some(42));
    assert_eq!(parse_vi_like_syntax("42"), None);
    assert_eq!(parse_vi_like_syntax("+abc"), None);
    assert_eq!(parse_vi_like_syntax("+"), None);
    assert_eq!(parse_vi_like_syntax(""), None);
    assert_eq!(parse_vi_like_syntax("+0"), Some(0));
    assert_eq!(parse_vi_like_syntax("++42"), Some(42));
}

#[test]
fn parse_usize_cases() {
    assert_eq!(parse_usize("007"), Some(7));
    assert_eq!(parse_usize("+55"), Some(55));
    assert_eq!(parse_usize("18446744073709551615"), Some(usize::MAX));
    assert_eq!(parse_usize("18446744073709551616"), None);
    assert_eq!(parse_usize("1 2"), None);
    assert_eq!(parse_usize("a"), None);
    assert_eq!(parse_usize(""), None);
    assert_eq!(parse_usize("-3"), None);
}

#[test]
fn joiner_appends_separator_after_every_segment() {
    let mut buf = String::new();
    write_text_with_sep_to(&vec![String::from("a"), String::from("b")], &mut buf, ":");
    assert_eq!(buf, String::from("a:b:"));

    let mut empty = String::new();
    write_text_with_sep_to(&Vec::new(), &mut empty, ":");
    assert_eq!(empty, String::from(""));

    let mut ordered = String::from(">");
    write_text_with_sep_to(
        &vec![String::from("x"), String::from("y"), String::from("z")],
        &mut ordered,
        "/",
    );
    assert_eq!(ordered, String::from(">x/y/z/"));
}

#[test]
fn candidates_for_line_and_column_suffix() {
    let (cands, fallback) = resolve_candidates("x/y:1:2", Some("y:1:2"));
    let expected = vec![
        PathObject::from_path(String::from("x/y:1:2")),
        PathObject::from(String::from("y"), 1, 2),
        PathObject::from(String::from("y:1"), 2, 1),
        PathObject::from_path(String::from("y:1:2")),
    ];
    assert_eq!(cands, expected);
    assert_eq!(fallback, PathObject::from_path(String::from("y:1:2")));
}

#[test]
fn candidates_for_line_suffix_only() {
    let (cands, fallback) = resolve_candidates("a.txt:55", Some("a.txt:55"));
    let expected = vec![
        PathObject::from_path(String::from("a.txt:55")),
        PathObject::from(String::from("a.txt"), 55, 1),
        PathObject::from_path(String::from("a.txt:55")),
    ];
    assert_eq!(cands, expected);
    assert_eq!(fallback, PathObject::from_path(String::from("a.txt:55")));
}

#[test]
fn candidates_with_empty_token() {
    let (cands, fallback) = resolve_candidates("a::5", Some("a::5"));
    let expected = vec![
        PathObject::from_path(String::from("a::5")),
        PathObject::from(String::from("a:"), 5, 1),
        PathObject::from_path(String::from("a::5")),
    ];
    assert_eq!(cands, expected);
    assert_eq!(fallback, PathObject::from_path(String::from("a::5")));
}

#[test]
fn candidates_without_numeric_suffix() {
    let (cands, fallback) = resolve_candidates("d/e.txt", Some("e.txt"));
    assert_eq!(cands, vec![PathObject::from_path(String::from("d/e.txt"))]);
    assert_eq!(fallback, PathObject::from_path(String::from("e.txt")));
}

#[test]
fn candidates_without_final_component() {
    let (cands, fallback) = resolve_candidates("..", None);
    assert_eq!(cands, vec![PathObject::from_path(String::from(".."))]);
    assert_eq!(fallback, PathObject::from_path(String::from("..")));
}

#[test]
fn candidates_for_single_numeric_token() {
    let (cands, fallback) = resolve_candidates("55", Some("55"));
    assert_eq!(cands, vec![PathObject::from_path(String::from("55"))]);
    assert_eq!(fallback, PathObject::from_path(String::from("")));
}

#[test]
fn first_existing_candidate_wins() {
    let cands = vec![
        PathObject::from_path(String::from("one")),
        PathObject::from(String::from("two"), 2, 1),
        PathObject::from(String::from("three"), 3, 1),
    ];
    let fallback = PathObject::from_path(String::from("fb"));

    let r = resolve_against(&cands, &vec![false, true, true], fallback);
    assert_eq!(r, PathObject::from(String::from("two"), 2, 1));

    let cands2 = vec![
        PathObject::from_path(String::from("one")),
        PathObject::from(String::from("two"), 2, 1),
    ];
    let all_false = resolve_against(&cands2, &vec![false, false], PathObject::from_path(String::from("fb")));
    assert_eq!(all_false, PathObject::from_path(String::from("fb")));

    let cands3 = vec![PathObject::from_path(String::from("one"))];
    let first = resolve_against(&cands3, &vec![true], PathObject::from_path(String::from("fb")));
    assert_eq!(first, PathObject::from_path(String::from("one")));
}

#[test]
fn notification_partitions_directories_and_files() {
    let paths = vec![
        PathObject::from_path(String::from("src")),
        PathObject::from_path(String::from("src/lib.rs")),
        PathObject::from_path(String::from("no_such_path_here")),
    ];
    let n = open_paths_notification(&paths);
    assert_eq!(n.folders, vec![String::from("src")]);
    assert_eq!(n.files, vec![String::from("src/lib.rs")]);
}

#[test]
fn build_open_paths_follows_the_kinds() {
    let paths = vec![
        PathObject::from_path(String::from("a")),
        PathObject::from(String::from("b"), 1, 1),
        PathObject::from_path(String::from("c")),
        PathObject::from_path(String::from("d")),
    ];
    let kinds = vec![PathKind::File, PathKind::Directory, PathKind::Other, PathKind::File];
    let n = build_open_paths(&paths, &kinds);
    assert_eq!(
        n,
        OpenPathsNotification {
            folders: vec![String::from("b")],
            files: vec![String::from("a"), String::from("d")],
        },
    );
}
