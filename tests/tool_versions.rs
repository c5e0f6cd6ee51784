use std::path::Path;

use tool_versions::{ConfigFileType, PluginSource, ToolVersions};

fn parse(text: &str) -> ToolVersions {
    ToolVersions::parse_str(text).unwrap()
}

fn names(tv: &ToolVersions) -> Vec<String> {
    tv.plugins().keys().cloned().collect()
}

fn versions_of(tv: &ToolVersions, name: &str) -> Option<Vec<String>> {
    tv.plugins().get(name).cloned()
}

fn strings(items: &[&str]) -> Vec<String> {
    items.iter().map(|s| s.to_string()).collect()
}

#[test]
fn test_parse() {
    let text = "#python 3.11.1 3.10.9 # foo\nshellcheck 0.9.0\nshfmt 3.6.0 # test comment\n#nodejs 18.13.0\nnodejs system\n";
    let path = Path::new(".tool-versions");
    let tv = ToolVersions::from_file_text(path, text).unwrap();
    assert_eq!(tv.get_path(), path);
    assert_eq!(tv.dump(), text);
}

#[test]
fn test_parse_comments() {
    let orig = "# intro comment\npython 3.11.0 3.10.0 # some comment # more comment\n#shellcheck 0.9.0\nshfmt 3.6.0\n# tail comment\n";
    let tv = parse(orig);
    assert_eq!(tv.dump(), orig);
}

#[test]
fn test_parse_colon() {
    let orig = "ruby: 3.0.5\n";
    let tv = parse(orig);
    assert_eq!(tv.dump(), "ruby 3.0.5\n");
}

#[test]
fn round_trip_of_canonical_text() {
    let text = "# header\n# second header line\nnodejs 18.13.0 16\npython 3.11.0 # pinned\n  # indented note\nshfmt 3.6.0\n";
    assert_eq!(parse(text).dump(), text);
}

#[test]
fn comment_goes_to_its_line() {
    let tv = parse("python 3.11.0 3.10.0 # some comment # more comment\n");
    assert_eq!(names(&tv), strings(&["python"]));
    assert_eq!(versions_of(&tv, "python"), Some(strings(&["3.11.0", "3.10.0"])));
    assert_eq!(tv.dump(), "python 3.11.0 3.10.0 # some comment # more comment\n");
}

#[test]
fn leading_comments_form_the_preamble() {
    let text = "# intro comment\npython 3.11.0 3.10.0 # some comment # more comment\n#shellcheck 0.9.0\nshfmt 3.6.0\n# tail comment\n";
    let tv = parse(text);
    assert_eq!(names(&tv), strings(&["python", "shfmt"]));
    assert_eq!(versions_of(&tv, "shellcheck"), None);
    let mut without_python = parse(text);
    without_python.remove_plugin(&"python".to_string());
    assert_eq!(without_python.dump(), "# intro comment\nshfmt 3.6.0\n# tail comment\n");
}

#[test]
fn trailing_colons_are_dropped() {
    let tv = parse("ruby: 3.0.5\n");
    assert_eq!(names(&tv), strings(&["ruby"]));
    assert_eq!(versions_of(&tv, "ruby"), Some(strings(&["3.0.5"])));
    assert_eq!(parse("ruby:::\n").dump(), "ruby\n");
}

#[test]
fn duplicate_tool_keeps_first_place_and_last_content() {
    let tv = parse("nodejs 16 # old\npython 3.11\nnodejs 18 # new\n");
    assert_eq!(names(&tv), strings(&["nodejs", "python"]));
    assert_eq!(versions_of(&tv, "nodejs"), Some(strings(&["18"])));
    assert_eq!(tv.dump(), "nodejs 18 # new\npython 3.11\n");
}

#[test]
fn comment_after_duplicate_joins_that_tool() {
    let tv = parse("a 1\nb 2\na 3\n# note\n");
    assert_eq!(tv.dump(), "a 3\n# note\nb 2\n");
}

#[test]
fn replace_versions_sets_the_list() {
    let mut tv = parse("nodejs 18 # lts\npython 3.11\n");
    tv.replace_versions(&"nodejs".to_string(), &strings(&["20"]));
    assert_eq!(versions_of(&tv, "nodejs"), Some(strings(&["20"])));
    assert_eq!(names(&tv), strings(&["nodejs", "python"]));
    assert_eq!(tv.dump(), "nodejs 20 # lts\npython 3.11\n");
}

#[test]
fn replace_versions_creates_missing_tool() {
    let mut tv = parse("python 3.11\n");
    tv.replace_versions(&"ruby".to_string(), &[]);
    assert_eq!(names(&tv), strings(&["python", "ruby"]));
    assert_eq!(versions_of(&tv, "ruby"), Some(Vec::new()));
}

#[test]
fn remove_plugin_drops_entry_and_comment() {
    let mut tv = parse("nodejs 18 # lts\n# more\npython 3.11\nruby 3\n");
    tv.remove_plugin(&"nodejs".to_string());
    assert_eq!(versions_of(&tv, "nodejs"), None);
    assert_eq!(names(&tv), strings(&["python", "ruby"]));
    assert_eq!(tv.dump(), "python 3.11\nruby 3\n");
    tv.remove_plugin(&"missing".to_string());
    assert_eq!(tv.dump(), "python 3.11\nruby 3\n");
}

#[test]
fn add_version_appends_and_creates_last() {
    let mut tv = parse("nodejs 18\n");
    tv.add_version(&"nodejs".to_string(), "16");
    assert_eq!(versions_of(&tv, "nodejs"), Some(strings(&["18", "16"])));
    tv.add_version(&"python".to_string(), "3.11");
    assert_eq!(names(&tv), strings(&["nodejs", "python"]));
    assert_eq!(tv.dump(), "nodejs 18 16\npython 3.11\n");
    tv.add_version(&"ruby".to_string(), "3");
    assert_eq!(tv.dump(), "nodejs 18 16\npython 3.11ruby 3\n");
}

#[test]
fn env_is_always_empty() {
    assert!(parse("nodejs 18\nFOO bar\n").env().is_empty());
    assert!(parse("").env().is_empty());
}

#[test]
fn empty_text_dumps_as_one_newline() {
    let tv = parse("");
    assert!(tv.plugins().is_empty());
    assert_eq!(tv.dump(), "\n");
}

#[test]
fn init_gives_an_empty_document() {
    let path = Path::new("/tmp/.tool-versions");
    let mut tv = ToolVersions::init(path);
    assert_eq!(tv.get_path(), path);
    assert!(tv.plugins().is_empty());
    tv.add_version(&"nodejs".to_string(), "20");
    assert_eq!(tv.dump(), "nodejs 20\n");
}

#[test]
fn name_without_versions() {
    let tv = parse("shfmt\nnodejs 18\n");
    assert_eq!(versions_of(&tv, "shfmt"), Some(Vec::new()));
    assert_eq!(tv.dump(), "shfmt \nnodejs 18\n");
    assert_eq!(parse("shfmt\n").dump(), "shfmt\n");
}

#[test]
fn blank_lines_and_trailing_space_are_not_kept() {
    assert_eq!(parse("a 1\n\n   \nb 2\n\n\n").dump(), "a 1\nb 2\n");
    assert_eq!(parse("a   1\t 2  \n").dump(), "a 1 2\n");
}

#[test]
fn carriage_returns_end_lines() {
    assert_eq!(parse("a 1\r\nb 2\r\n").dump(), "a 1\nb 2\n");
}

#[test]
fn empty_comment_is_dropped() {
    assert_eq!(parse("a 1 #\nb 2\n").dump(), "a 1\nb 2\n");
}

#[test]
fn comment_before_any_entry_after_data_start_is_dropped() {
    let tv = parse("   \n# orphan\na 1\n");
    assert_eq!(tv.dump(), "a 1\n");
}

#[test]
fn type_and_source_name_the_format() {
    let tv = ToolVersions::init(Path::new("x/.tool-versions"));
    assert_eq!(tv.get_type(), ConfigFileType::ToolVersions);
    match tv.source() {
        PluginSource::ToolVersions(p) => assert_eq!(p, Path::new("x/.tool-versions")),
    }
}

#[test]
fn round_trip_keeps_inner_trailing_space() {
    let text = "# head  \na 1 # c  \n  # note \nb 2\n";
    assert_eq!(parse(text).dump(), text);
}

#[test]
fn comment_after_blank_line_joins_tool_above() {
    assert_eq!(parse("a 1\n\n# c\nb 2\n").dump(), "a 1\n# c\nb 2\n");
}

#[test]
fn parsed_text_is_bound_to_no_file() {
    assert_eq!(parse("a 1\n").get_path(), Path::new(""));
}
