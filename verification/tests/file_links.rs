use editor_core::anchor::{anchored, Bias};
use editor_core::file_links::{
    file_candidates, filename_scan_in_limit, surrounding_filename, FileSearch, FileStep,
    ResolvedPath,
};
use editor_core::text::BufferSnapshot;
use editor_core::url_links::LIMIT;

fn name_under(text: &str, offset: usize) -> Option<(std::ops::Range<usize>, String)> {
    let snapshot = BufferSnapshot::new(text);
    assert!(snapshot.is_char_boundary(offset));
    assert!(filename_scan_in_limit(&snapshot, offset));
    surrounding_filename(&snapshot, offset).map(|(range, name)| {
        assert_eq!((range.start.bias, range.end.bias), (Bias::Left, Bias::Right));
        (range.start.offset..range.end.offset, name)
    })
}

fn found(start: usize, end: usize, name: &str) -> Option<(std::ops::Range<usize>, String)> {
    Some((start..end, name.to_string()))
}

#[test]
fn plain_name() {
    for offset in 5..=12 {
        assert_eq!(name_under("open main.rs now", offset), found(5, 12, "main.rs"));
    }
}

#[test]
fn escaped_spaces_belong_to_the_name() {
    let text = r"a dir\ with\ spaces/file b";
    for offset in [2, 4, 10, 20] {
        assert_eq!(name_under(text, offset), found(2, 24, "dir with spaces/file"));
    }
}

#[test]
fn quotes_delimit_a_name() {
    assert_eq!(name_under("x \"main.rs\" y", 5), found(3, 10, "main.rs"));
    assert_eq!(name_under("'main.rs'", 4), found(1, 8, "main.rs"));
    assert_eq!(name_under("import \"./a.js\";", 12), found(8, 14, "./a.js"));
}

#[test]
fn spaces_end_a_quoted_name() {
    assert_eq!(name_under("\"a b\"", 1), found(1, 2, "a"));
    assert_eq!(name_under("\"a b\"", 3), found(3, 5, "b"));
}

#[test]
fn a_first_quote_after_the_position_is_passed() {
    assert_eq!(name_under("ab\"cd\" e", 1), found(0, 5, "abcd"));
}

#[test]
fn an_empty_name_is_none() {
    assert_eq!(name_under("  ", 1), None);
    assert_eq!(name_under("", 0), None);
    assert_eq!(name_under("\"\"", 1), None);
}

#[test]
fn long_names_are_none() {
    let text = "a".repeat(LIMIT);
    assert_eq!(name_under(&text, 0), None);
    assert_eq!(name_under(&text[..LIMIT - 1], 7), found(0, LIMIT - 1, &text[..LIMIT - 1]));
    let longer = "a".repeat(LIMIT + 1);
    assert_eq!(name_under(&longer, LIMIT + 1), None);
}

#[test]
fn wide_names_can_exceed_the_bytes_of_the_limit() {
    let text = "é".repeat(1100);
    let snapshot = BufferSnapshot::new(&text);
    assert!(!filename_scan_in_limit(&snapshot, text.len()));
    assert!(filename_scan_in_limit(&snapshot, 0));
}

fn strings(list: &[&str]) -> Vec<String> {
    list.iter().map(|s| s.to_string()).collect()
}

#[test]
fn candidates_have_each_missing_suffix() {
    assert_eq!(
        file_candidates("mod", &strings(&["rs", "toml"])),
        strings(&["mod", "mod.rs", "mod.toml"])
    );
    assert_eq!(
        file_candidates("mod.rs", &strings(&["rs", "toml"])),
        strings(&["mod.rs", "mod.rs.toml"])
    );
    assert_eq!(file_candidates("rs", &strings(&["rs"])), strings(&["rs", "rs.rs"]));
    assert_eq!(file_candidates("a", &strings(&[])), strings(&["a"]));
}

fn path(path: &str, is_dir: bool) -> Option<ResolvedPath> {
    Some(ResolvedPath { path: path.to_string(), is_dir })
}

#[test]
fn search_tries_candidates_in_order() {
    let snapshot = BufferSnapshot::new("see lib/mod here");
    let mut search = FileSearch::start(true, &snapshot, 6, &strings(&["rs", "js"])).unwrap();
    assert_eq!(search.range, anchored(4, 11));
    assert_eq!(search.candidates, strings(&["lib/mod", "lib/mod.rs", "lib/mod.js"]));
    assert_eq!(search.next, 0);
    assert!(matches!(search.answer(path("/lib/mod", true)), FileStep::Check(1)));
    assert!(matches!(search.answer(None), FileStep::Check(2)));
    match search.answer(path("/lib/mod.js", false)) {
        FileStep::Found(found) => assert_eq!(found.path, "/lib/mod.js"),
        _ => panic!("expected a file"),
    }
}

#[test]
fn search_ends_without_a_file() {
    let snapshot = BufferSnapshot::new("name");
    let mut search = FileSearch::start(true, &snapshot, 2, &strings(&[])).unwrap();
    assert!(matches!(search.answer(path("/name", true)), FileStep::NotFound));
}

#[test]
fn search_needs_a_project_and_a_name() {
    assert!(FileSearch::start(false, &BufferSnapshot::new("name"), 2, &strings(&[])).is_none());
    assert!(FileSearch::start(true, &BufferSnapshot::new("   "), 2, &strings(&[])).is_none());
}

#[test]
fn directories_are_no_files() {
    assert!(path("a", false).unwrap().is_file());
    assert!(!path("a", true).unwrap().is_file());
}
