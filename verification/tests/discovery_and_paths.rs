use xml_compiler::discover::{is_candidate_name, is_candidate_rel_path};
use xml_compiler::resolve::resolve_reference;

fn bytes(s: &str) -> Vec<u8> {
    s.as_bytes().to_vec()
}

fn text(v: &[u8]) -> String {
    String::from_utf8(v.to_vec()).unwrap()
}

#[test]
fn candidate_names_follow_the_convention() {
    assert!(is_candidate_name(&bytes("1_a.xml")));
    assert!(is_candidate_name(&bytes("9_long-name.2.xml")));
    assert!(is_candidate_name(&bytes("1_.xml")));
    assert!(!is_candidate_name(&bytes("12_a.xml")));
    assert!(!is_candidate_name(&bytes("a_a.xml")));
    assert!(!is_candidate_name(&bytes("1-a.xml")));
    assert!(!is_candidate_name(&bytes("1_a.XML")));
    assert!(!is_candidate_name(&bytes("1_a.xm")));
    assert!(!is_candidate_name(&bytes("1_axml")));
}

#[test]
fn only_exact_depth_two_paths_are_selected() {
    assert!(is_candidate_rel_path(&bytes("sub/1_a.xml")));
    assert!(!is_candidate_rel_path(&bytes("1_a.xml")));
    assert!(!is_candidate_rel_path(&bytes("sub/x/1_a.xml")));
    assert!(!is_candidate_rel_path(&bytes("/1_a.xml")));
    assert!(!is_candidate_rel_path(&bytes("sub/2-a.xml")));
}

#[test]
fn references_join_onto_the_base_directory() {
    assert_eq!(
        text(&resolve_reference(&bytes("R/sub"), &bytes("part.xml"), false)),
        "R/sub/part.xml"
    );
    assert_eq!(
        text(&resolve_reference(&bytes("R/sub/"), &bytes("part.xml"), false)),
        "R/sub/part.xml"
    );
    assert_eq!(
        text(&resolve_reference(&bytes(""), &bytes("part.xml"), false)),
        "part.xml"
    );
    assert_eq!(
        text(&resolve_reference(&bytes("R"), &bytes("/abs/part.xml"), false)),
        "/abs/part.xml"
    );
}

#[test]
fn backslash_references_resolve_like_forward_ones() {
    let with_back = resolve_reference(&bytes("R/sub"), &bytes("..\\x\\part.xml"), false);
    let with_fwd = resolve_reference(&bytes("R/sub"), &bytes("../x/part.xml"), false);
    assert_eq!(with_back, with_fwd);
    assert_eq!(text(&with_back), "R/sub/../x/part.xml");
}

#[test]
fn backslash_native_platform_keeps_the_reference() {
    let kept = resolve_reference(&bytes("R/sub"), &bytes("x\\part.xml"), true);
    assert_eq!(text(&kept), "R/sub/x\\part.xml");
}
