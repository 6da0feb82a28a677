use openrouter_mcp::markdown::extract_images_from_markdown;

fn extract(text: &str) -> (String, Vec<String>) {
    extract_images_from_markdown(text)
}

#[test]
fn embedded_image_is_cut_out_of_the_text() {
    let (text, images) = extract("![a](data:image/png;base64,AAAA)plain");
    assert_eq!(text, "plain");
    assert_eq!(images, vec!["data:image/png;base64,AAAA".to_string()]);
}

#[test]
fn text_without_images_is_only_trimmed() {
    let (text, images) = extract("  hello world \n");
    assert_eq!(text, "hello world");
    assert!(images.is_empty());
}

#[test]
fn several_images_keep_their_order() {
    let (text, images) = extract(
        "one ![x](data:image/png;base64,AA) two ![y](data:image/jpeg;base64,BB) three",
    );
    assert_eq!(text, "one  two  three");
    assert_eq!(
        images,
        vec![
            "data:image/png;base64,AA".to_string(),
            "data:image/jpeg;base64,BB".to_string()
        ]
    );
}

#[test]
fn unmatched_marker_stays_in_the_text() {
    let (text, images) = extract("see ![this one and ![b](data:image/png;base64,CC) too");
    // The first `](` behind the first marker is followed by a data URI, so the
    // first marker opens the image.
    assert_eq!(text, "see  too");
    assert_eq!(images, vec!["data:image/png;base64,CC".to_string()]);
}

#[test]
fn marker_without_target_is_plain_text() {
    let (text, images) = extract("a ![b c");
    assert_eq!(text, "a ![b c");
    assert!(images.is_empty());
}

#[test]
fn link_to_a_remote_image_is_plain_text() {
    let (text, images) = extract("![pic](https://example.com/a.png) and more");
    assert_eq!(text, "![pic](https://example.com/a.png) and more");
    assert!(images.is_empty());
}

#[test]
fn remote_link_before_embedded_image() {
    let (text, images) = extract("![p](http://x/a.png)![q](data:image/png;base64,DD)");
    assert_eq!(text, "![p](http://x/a.png)");
    assert_eq!(images, vec!["data:image/png;base64,DD".to_string()]);
}

#[test]
fn image_without_closing_parenthesis_is_plain_text() {
    let (text, images) = extract("![a](data:image/png;base64,AAAA");
    assert_eq!(text, "![a](data:image/png;base64,AAAA");
    assert!(images.is_empty());
}

#[test]
fn many_unmatched_markers_terminate() {
    let input = "![".repeat(2000);
    let (text, images) = extract(&input);
    assert_eq!(text, input);
    assert!(images.is_empty());
}

#[test]
fn text_of_only_an_image_is_empty() {
    let (text, images) = extract("  ![alt text](data:image/webp;base64,Zm9v)  ");
    assert_eq!(text, "");
    assert_eq!(images, vec!["data:image/webp;base64,Zm9v".to_string()]);
}

#[test]
fn unicode_whitespace_is_trimmed() {
    let (text, _) = extract("\u{3000}\u{a0}caf\u{e9}\u{2003}\t");
    assert_eq!(text, "caf\u{e9}");
}

#[test]
fn empty_text_gives_nothing() {
    let (text, images) = extract("");
    assert_eq!(text, "");
    assert!(images.is_empty());
}

#[test]
fn long_runs_of_markers_are_read_in_one_pass() {
    // Every marker shares the one `](` and the one `)` far behind it.
    let input = "![".repeat(200_000) + "](data:image/png;base64,AA)" + &"![".repeat(200_000);
    let (text, images) = extract(&input);
    assert_eq!(images, vec!["data:image/png;base64,AA".to_string()]);
    assert_eq!(text.len(), 400_000);
    let input = "![x](no)".repeat(100_000);
    let (text, images) = extract(&input);
    assert_eq!(text, input);
    assert!(images.is_empty());
}

#[test]
fn escaped_parenthesis_does_not_end_the_image() {
    let (text, images) = extract(r"![a](data:image/png;base64,AA\)BB)tail");
    assert_eq!(text, "tail");
    assert_eq!(images, vec![r"data:image/png;base64,AA\)BB".to_string()]);
    // A backslash that is itself escaped escapes nothing.
    let (text, images) = extract(r"![a](data:image/png;base64,AA\\)BB)tail");
    assert_eq!(text, "BB)tail");
    assert_eq!(images, vec![r"data:image/png;base64,AA\\".to_string()]);
    let (text, images) = extract(r"![a](data:image/png;base64,AA\)");
    assert_eq!(text, r"![a](data:image/png;base64,AA\)");
    assert!(images.is_empty());
}
