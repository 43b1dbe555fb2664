//! The story-format functions: passage lookup, link extraction, and the
//! raw-file helpers.

use ghostwriter::story::{
    bytes_equal, count_matches, find_from, find_offset, find_passage_text_by_id,
    find_passage_text_by_name, find_start_passage_id, get_link_data, get_n_links, play_step,
    str_eq, strip_header,
};

#[test]
fn can_find_passage_id() {
    const STORY: &str = r#"
        <tw-storydata startnode="1">
            <tw-passagedata pid="1"></tw-passagedata>
        </tw-storydata>
        "#;
    let passage_id = find_start_passage_id(STORY);
    assert_eq!(passage_id, "1");
}

#[test]
fn can_find_elem_by_attr() {
    const STORY: &str = r#"
        <tw-storydata>
            <tw-passagedata pid="1"></tw-passagedata>
            <tw-passagedata pid="2">Hello</tw-passagedata>
        </tw-storydata>
        "#;

    let text = find_passage_text_by_id(STORY, "2");
    assert_eq!(text, "Hello");
}

#[test]
fn can_find_passage_text_by_id() {
    const STORY: &str = r#"
            <tw-storydata>
                <tw-passagedata pid="1">Once upon a time...</tw-passagedata>
                <tw-passagedata pid="2">The end.</tw-passagedata>
            </tw-storydata>
        "#;

    let text = find_passage_text_by_id(STORY, "1");
    assert!(text.starts_with("Once upon a time"));

    let text = find_passage_text_by_id(STORY, "2");
    assert!(text.starts_with("The end"));
}

#[test]
fn can_find_passage_text_by_name() {
    const STORY: &str = r#"
            <tw-storydata>
                <tw-passagedata pid="1" name="intro">Once upon a time...</tw-passagedata>
                <tw-passagedata pid="2" name="end">The end.</tw-passagedata>
            </tw-storydata>
        "#;

    let text = find_passage_text_by_name(STORY, "intro");
    assert!(text.starts_with("Once upon a time"));

    let text = find_passage_text_by_name(STORY, "end");
    assert!(text.starts_with("The end"));
}

#[test]
fn can_find_n_links() {
    let n_links = get_n_links("[[Hello]]");
    assert_eq!(n_links, 1);

    let n_links = get_n_links("[[Hello]]\n[[World]]");
    assert_eq!(n_links, 2);
}

#[test]
fn can_find_link_data() {
    let passage = "[[Hello]]\n[[Foo-&gt;Bar]]";

    let link_0 = get_link_data(passage, 0);
    assert_eq!(link_0.label, "Hello");
    assert_eq!(link_0.target, "Hello");

    let link_1 = get_link_data(passage, 1);
    assert_eq!(link_1.label, "Foo");
    assert_eq!(link_1.target, "Bar");
}

#[test]
fn can_find_link_data_story() {
    // Test that passages can be accessed by name or alias
    const STORY: &str = r#"
        <tw-storydata startnode="1">
            <tw-passagedata pid="1">
                Once upon a time...
                [[Continue-&gt;foo]]
            </tw-passagedata>
            <tw-passagedata pid="2" name="foo">
                Other passage
                [[The end]]
            </tw-passagedata>
            <tw-passagedata pid="3" name="The end">
                The end.
            </tw-passagedata>
        </tw-story-data>
"#;
    let start_pid = find_start_passage_id(STORY);

    let passage = find_passage_text_by_id(STORY, start_pid);

    let n_links = get_n_links(passage);
    assert_eq!(n_links, 1);

    let link_data = get_link_data(passage, 0);
    let passage = find_passage_text_by_name(STORY, link_data.target);

    assert!(passage.trim().starts_with("Other passage"));

    let link_data = get_link_data(passage, 0);
    let passage = find_passage_text_by_name(STORY, link_data.target);

    assert_eq!(passage.trim(), "The end.");
}

#[test]
fn searching_finds_first_occurrence() {
    assert_eq!(find_from("abcabc", "bc", 0), Some(1));
    assert_eq!(find_from("abcabc", "bc", 2), Some(4));
    assert_eq!(find_from("abcabc", "bd", 0), None);
    assert_eq!(find_from("abc", "abcd", 0), None);
}

#[test]
fn counting_is_non_overlapping() {
    assert_eq!(count_matches("[[[[", "[["), 2);
    assert_eq!(count_matches("[[[", "[["), 1);
    assert_eq!(count_matches("", "[["), 0);
}

#[test]
fn string_comparison() {
    assert!(str_eq("hello", "hello"));
    assert!(!str_eq("hello", "hellp"));
    assert!(!str_eq("hello", "hell"));
    assert!(str_eq("", ""));
}

#[test]
fn play_stops_without_links() {
    assert_eq!(play_step("no links here"), None);
    assert_eq!(play_step("text then [[a link]]"), Some(10));
}

#[test]
fn byte_helpers_find_markers() {
    let hay = b"xx<tw-storydata a=\"1\">body</tw-storydata>yy";
    assert!(bytes_equal(hay, b"<tw-storydata", 2));
    assert!(!bytes_equal(hay, b"<tw-storydata", 3));
    assert_eq!(find_offset(hay, b"<tw-storydata"), 2);
    assert_eq!(find_offset(hay, b"</tw-storydata>"), 26);
}

#[test]
fn stripping_keeps_the_story_element() {
    let raw = b"<html><head></head><tw-storydata startnode=\"1\">X</tw-storydata></html>";
    let stripped = strip_header(raw);
    assert_eq!(stripped, &b"<tw-storydata startnode=\"1\">X"[..]);
}
