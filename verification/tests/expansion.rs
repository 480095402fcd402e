use xml_compiler::directive::scan_directives;
use xml_compiler::expand::{
    error_marker, expand_level, missing_marker, replacement_of, DirectiveOutcome,
};
use xml_compiler::transform::{flatten, strip_comments, unwrap_placeholders};

/// The directive verb, lower case.
fn verb() -> String {
    String::from_utf8(vec![105, 110, 99, 108, 117, 100, 101]).unwrap()
}

/// The directive verb as the markers capitalise it.
fn verb_cap() -> String {
    String::from_utf8(vec![73, 110, 99, 108, 117, 100, 101]).unwrap()
}

/// A directive comment referencing `path`, written without inner spaces.
fn directive_text(path: &str) -> String {
    format!("<!--#{} file=\"{}\"-->", verb(), path)
}

/// A directive comment referencing `path`, written with inner spaces.
fn directive_text_spaced(path: &str) -> String {
    format!("<!-- #{} file=\"{}\" -->", verb(), path)
}

fn missing_marker_text(path: &str) -> String {
    format!("<!-- {} not found: {} -->", verb_cap(), path)
}

fn error_marker_text(err: &str) -> String {
    format!("<!-- {} error: {} -->", verb_cap(), err)
}

fn bytes(s: &str) -> Vec<u8> {
    s.as_bytes().to_vec()
}

fn text(v: &[u8]) -> String {
    String::from_utf8(v.to_vec()).unwrap()
}

#[test]
fn scan_finds_directive_span_and_path() {
    let content = bytes(&format!("<a>{}</a>", directive_text("part.xml")));
    let ds = scan_directives(&content);
    assert_eq!(ds.len(), 1);
    assert_eq!(ds[0].start, 3);
    assert_eq!(ds[0].end, content.len() - 4);
    assert_eq!(text(&ds[0].path), "part.xml");
}

#[test]
fn scan_trims_path_and_accepts_spaces() {
    let content = bytes(&format!("x{}y", directive_text_spaced("  part.xml\t")));
    let ds = scan_directives(&content);
    assert_eq!(ds.len(), 1);
    assert_eq!(text(&ds[0].path), "part.xml");
}

#[test]
fn scan_skips_plain_comments_and_malformed_directives() {
    let plain = bytes("<a><!-- note --></a>");
    assert_eq!(scan_directives(&plain).len(), 0);
    let unquoted = bytes(&format!("<!--#{} file=part.xml-->", verb()));
    assert_eq!(scan_directives(&unquoted).len(), 0);
    let unclosed = bytes(&format!("<!--#{} file=\"part.xml\"", verb()));
    assert_eq!(scan_directives(&unclosed).len(), 0);
}

#[test]
fn root_without_directives_is_unchanged() {
    let content = bytes("<a>\n<!-- keep -->\n<placeholder>p</placeholder>\n</a>");
    let outcomes: Vec<DirectiveOutcome> = Vec::new();
    let out = expand_level(&content, &outcomes, true);
    assert_eq!(out, content);
}

#[test]
fn missing_reference_leaves_marker_in_place() {
    let content = bytes(&format!("<a>{}</a>", directive_text("gone.xml")));
    let outcomes = vec![DirectiveOutcome::Missing { resolved: bytes("R/gone.xml") }];
    let out = expand_level(&content, &outcomes, true);
    let expected = format!("<a>{}</a>", missing_marker_text("R/gone.xml"));
    assert_eq!(text(&out), expected);
}

#[test]
fn missing_reference_between_siblings_keeps_rest() {
    let content = bytes(&format!(
        "a{}b{}c",
        directive_text("one.xml"),
        directive_text("two.xml")
    ));
    let outcomes = vec![
        DirectiveOutcome::Missing { resolved: bytes("R/one.xml") },
        DirectiveOutcome::Inlined { text: bytes("<x/>") },
    ];
    let out = expand_level(&content, &outcomes, true);
    let expected = format!("a{}b<x/>c", missing_marker_text("R/one.xml"));
    assert_eq!(text(&out), expected);
}

#[test]
fn unreadable_reference_leaves_error_marker() {
    let content = bytes(&format!("<a>{}</a>", directive_text("bad.xml")));
    let outcomes = vec![DirectiveOutcome::Unreadable { error: bytes("permission denied") }];
    let out = expand_level(&content, &outcomes, true);
    let expected = format!("<a>{}</a>", error_marker_text("permission denied"));
    assert_eq!(text(&out), expected);
}

#[test]
fn marker_builders_spell_the_markers() {
    assert_eq!(
        text(&missing_marker(&bytes("p.xml"))),
        missing_marker_text("p.xml")
    );
    assert_eq!(text(&error_marker(&bytes("oops"))), error_marker_text("oops"));
}

#[test]
fn inlined_text_is_flattened_to_one_line() {
    let content = bytes(&format!("<a>{}</a>", directive_text("part.xml")));
    let outcomes = vec![DirectiveOutcome::Inlined { text: bytes("x\r\n  y\nz") }];
    let out = expand_level(&content, &outcomes, true);
    assert_eq!(text(&out), "<a>x yz</a>");
}

#[test]
fn nonroot_pass_unwraps_then_strips() {
    let content = bytes("A<!-- c -->B<placeholder>P</placeholder>C");
    let outcomes: Vec<DirectiveOutcome> = Vec::new();
    let out = expand_level(&content, &outcomes, false);
    assert_eq!(text(&out), "ABPC");
}

#[test]
fn nonroot_pass_unwraps_case_insensitively_and_with_attributes() {
    let content = bytes("<PlaceHolder a=\"1\">x</PLACEHOLDER>y<placeholder>z</placeholder>");
    let outcomes: Vec<DirectiveOutcome> = Vec::new();
    let out = expand_level(&content, &outcomes, false);
    assert_eq!(text(&out), "xyz");
}

#[test]
fn unclosed_comment_is_kept_as_text() {
    let content = bytes("A<!--B");
    let out = strip_comments(&content);
    assert_eq!(text(&out), "A<!--B");
}

#[test]
fn unclosed_placeholder_is_kept_as_text() {
    let content = bytes("A<placeholder>B");
    let out = unwrap_placeholders(&content);
    assert_eq!(text(&out), "A<placeholder>B");
}

#[test]
fn flatten_removes_line_breaks_then_collapses_runs() {
    assert_eq!(text(&flatten(&bytes("a\nb"))), "ab");
    assert_eq!(text(&flatten(&bytes("a\n b"))), "a b");
    assert_eq!(text(&flatten(&bytes("a \t b"))), "a b");
    assert_eq!(text(&flatten(&bytes("a\r\nb"))), "ab");
}

#[test]
fn scenario_part_spliced_flat_into_root() {
    // R/sub/1_a.xml references part.xml, which holds one placeholder
    // block and no directives: the root output carries the bare inner
    // content in place of the directive, on one line.
    let root = bytes(&format!("{}", directive_text("part.xml")));
    let part = bytes("<placeholder><b>hi</b></placeholder>");
    let none: Vec<DirectiveOutcome> = Vec::new();
    let part_out = expand_level(&part, &none, false);
    assert_eq!(text(&part_out), "<b>hi</b>");
    let outcomes = vec![DirectiveOutcome::Inlined { text: part_out }];
    let out = expand_level(&root, &outcomes, true);
    assert_eq!(text(&out), "<b>hi</b>");
}

#[test]
fn scenario_two_level_nesting_flattens_only_spliced_content() {
    let root = bytes(&format!("<r>{}</r>\n<!-- keep -->", directive_text("a.xml")));
    let mid = bytes(&format!("<m>\n{}\n</m>", directive_text("b.xml")));
    let leaf = bytes("<placeholder>\n<b>hi</b>\n</placeholder>");
    let none: Vec<DirectiveOutcome> = Vec::new();
    let leaf_out = expand_level(&leaf, &none, false);
    assert_eq!(text(&leaf_out), "\n<b>hi</b>\n");
    let mid_outcomes = vec![DirectiveOutcome::Inlined { text: leaf_out }];
    let mid_out = expand_level(&mid, &mid_outcomes, false);
    assert_eq!(text(&mid_out), "<m>\n<b>hi</b>\n</m>");
    let root_outcomes = vec![DirectiveOutcome::Inlined { text: mid_out }];
    let out = expand_level(&root, &root_outcomes, true);
    assert_eq!(text(&out), "<r><m><b>hi</b></m></r>\n<!-- keep -->");
}

#[test]
fn repeated_expansion_is_byte_identical() {
    let content = bytes(&format!("<a>{}</a>\n<z/>", directive_text("part.xml")));
    let outcomes = vec![DirectiveOutcome::Inlined { text: bytes("<p>\nq</p>") }];
    let first = expand_level(&content, &outcomes, true);
    let second = expand_level(&content, &outcomes, true);
    assert_eq!(first, second);
}

#[test]
fn directive_whitespace_may_span_lines() {
    let content = bytes(&format!("a<!--\n  #{} file=\"p.xml\"\n-->b", verb()));
    let ds = scan_directives(&content);
    assert_eq!(ds.len(), 1);
    assert_eq!(text(&ds[0].path), "p.xml");
}

#[test]
fn quoted_path_may_not_span_lines() {
    let content = bytes(&format!("<!--#{} file=\"p\n.xml\"-->", verb()));
    assert_eq!(scan_directives(&content).len(), 0);
}

#[test]
fn nonroot_cleaning_strips_markers_too() {
    // In a non-root document the spliced marker is itself a complete
    // comment, and the document's own cleaning pass deletes it.
    let content = bytes(&format!("a{}b", directive_text("gone.xml")));
    let outcomes = vec![DirectiveOutcome::Missing { resolved: bytes("R/gone.xml") }];
    let out = expand_level(&content, &outcomes, false);
    assert_eq!(text(&out), "ab");
}

#[test]
fn replacement_of_matches_spliced_text() {
    let inlined = DirectiveOutcome::Inlined { text: bytes("a\nb") };
    assert_eq!(text(&replacement_of(&inlined)), "ab");
    let missing = DirectiveOutcome::Missing { resolved: bytes("p") };
    assert_eq!(text(&replacement_of(&missing)), missing_marker_text("p"));
}
