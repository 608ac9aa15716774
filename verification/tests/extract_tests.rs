use detective::extract_dependencies;

#[test]
fn quoted_reference_is_stripped_exactly() {
    let refs = extract_dependencies("#include \"x.h\"");
    assert_eq!(refs, vec!["x.h".to_string()]);
}

#[test]
fn count_order_and_duplicates_follow_the_include_lines() {
    let content = "#include \"a.h\"\nint x;\n#include \"b.h\"\n#include \"a.h\"\nreturn 0;\n";
    let refs = extract_dependencies(content);
    assert_eq!(refs.len(), 3);
    assert_eq!(refs, vec!["a.h".to_string(), "b.h".to_string(), "a.h".to_string()]);
}

#[test]
fn bracket_reference_passes_through_with_brackets_intact() {
    let refs = extract_dependencies("#include <stdio.h>\n");
    assert_eq!(refs, vec!["<stdio.h>".to_string()]);
}

#[test]
fn surrounding_whitespace_is_trimmed() {
    let refs = extract_dependencies("#include    \"spaced.h\"   \n");
    assert_eq!(refs, vec!["spaced.h".to_string()]);
}

#[test]
fn leading_whitespace_before_the_marker_is_allowed() {
    let refs = extract_dependencies(" #include \"x.h\"");
    assert_eq!(refs, vec!["x.h".to_string()]);
    let refs = extract_dependencies("\t\t#include \"tabbed.h\"\n   #include \"deep.h\"\n");
    assert_eq!(refs, vec!["tabbed.h".to_string(), "deep.h".to_string()]);
}

#[test]
fn unicode_whitespace_counts_as_whitespace() {
    let refs = extract_dependencies("\u{A0}#include\u{2003}\"wide.h\"\u{A0}\n");
    assert_eq!(refs, vec!["wide.h".to_string()]);
}

#[test]
fn only_one_layer_of_quotes_is_removed() {
    let refs = extract_dependencies("#include \"\"q.h\"\"");
    assert_eq!(refs, vec!["\"q.h\"".to_string()]);
}

#[test]
fn lines_not_starting_with_the_marker_yield_nothing() {
    let refs = extract_dependencies("int main() {\n  // #include \"c.h\"\n}\n");
    assert_eq!(refs.len(), 0);
}

#[test]
fn empty_content_yields_nothing() {
    let refs = extract_dependencies("");
    assert_eq!(refs.len(), 0);
}

#[test]
fn windows_line_endings_are_handled() {
    let refs = extract_dependencies("#include \"a.h\"\r\n#include \"b.h\"\r\n");
    assert_eq!(refs, vec!["a.h".to_string(), "b.h".to_string()]);
}
