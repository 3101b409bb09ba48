use assist::docstring::parse_docstring;
use assist::docstring::extract_docstring;

#[test]
fn empty_docstring_yields_nothing() {
    let (description, docs) = parse_docstring("");
    assert_eq!(description.as_str(), "");
    assert!(docs.is_empty());
}

#[test]
fn well_formed_param_line_is_parsed() {
    let (description, docs) = parse_docstring("param decision: The answer to the decision.");
    assert_eq!(description.as_str(), "");
    assert_eq!(docs.get("decision").unwrap().as_str(), "The answer to the decision.");
}

#[test]
fn param_text_whitespace_is_trimmed() {
    let (_, docs) = parse_docstring("param x:    text here   ");
    assert_eq!(docs.get("x").unwrap().as_str(), "text here");
}

#[test]
fn bare_param_marker_contributes_nothing() {
    let (description, docs) = parse_docstring("param");
    assert_eq!(description.as_str(), "");
    assert!(docs.is_empty());
}

#[test]
fn param_line_without_text_is_skipped() {
    let (description, docs) = parse_docstring("param x");
    assert_eq!(description.as_str(), "");
    assert!(docs.is_empty());
    assert!(docs.get("x").is_none());
}

#[test]
fn param_line_without_name_is_skipped() {
    let (_, docs) = parse_docstring("param : some text");
    assert!(docs.is_empty());
}

#[test]
fn description_lines_are_joined() {
    let (description, docs) = parse_docstring("First line.\nSecond line.\nparam x: doc\nThird line.");
    assert_eq!(description.as_str(), "First line.\nSecond line.\nThird line.");
    assert_eq!(docs.get("x").unwrap().as_str(), "doc");
}

#[test]
fn interior_blank_lines_are_kept() {
    let (description, _) = parse_docstring("a\n\nb");
    assert_eq!(description.as_str(), "a\n\nb");
}

#[test]
fn surrounding_blank_lines_are_trimmed() {
    let (description, _) = parse_docstring("\n\n  a  \n\n");
    assert_eq!(description.as_str(), "a");
}

#[test]
fn doc_line_underscore_name_is_stripped() {
    let (_, docs) = parse_docstring("param _reasoning: Why.");
    assert_eq!(docs.get("reasoning").unwrap().as_str(), "Why.");
}

#[test]
fn trailing_colons_are_stripped_from_name() {
    let (_, docs) = parse_docstring("param confidence:: Values.");
    assert_eq!(docs.get("confidence").unwrap().as_str(), "Values.");
}

#[test]
fn later_duplicate_tag_wins() {
    let (_, docs) = parse_docstring("param x: first\nparam x: second");
    assert_eq!(docs.get("x").unwrap().as_str(), "second");
}

#[test]
fn missing_parameter_is_absent() {
    let (_, docs) = parse_docstring("param x: doc");
    assert!(docs.get("y").is_none());
}

#[test]
fn extract_docstring_joins_and_trims() {
    let lines = vec![
        " Forces a choice. ".to_string(),
        "".to_string(),
        " param decision: The answer. ".to_string(),
    ];
    let doc = extract_docstring(&lines);
    assert_eq!(doc.as_str(), "Forces a choice. \n\n param decision: The answer.");
}

#[test]
fn extract_docstring_of_nothing_is_empty() {
    let doc = extract_docstring(&Vec::new());
    assert_eq!(doc.as_str(), "");
}
