use openrouter_mcp::error::{Malformed, ToolError};
use openrouter_mcp::reply::{extract_text_and_images, merge_texts, ImageDescriptor};
use serde_json::Value;

fn json(text: &str) -> Value {
    serde_json::from_str(text).expect("the test's own JSON is valid")
}

fn normalize(text: &str) -> Result<(String, Vec<ImageDescriptor>), ToolError> {
    extract_text_and_images(&json(text))
}

fn sources(images: &[ImageDescriptor]) -> Vec<String> {
    images.iter().map(|d| d.source_url.clone()).collect()
}

#[test]
fn plain_string_content_becomes_the_text() {
    let (text, images) = normalize(r#"{"choices":[{"message":{"content":"hello"}}]}"#).unwrap();
    assert_eq!(text, "hello");
    assert!(images.is_empty());
}

#[test]
fn candidates_with_typed_parts() {
    let (text, images) = normalize(
        r#"{"candidates":[{"content":{"parts":[
            {"type":"text","text":"x"},
            {"type":"image_url","image_url":{"url":"http://a"}}]}}]}"#,
    )
    .unwrap();
    assert_eq!(text, "x");
    assert_eq!(
        images,
        vec![ImageDescriptor { source_url: "http://a".to_string(), mime_hint: None }]
    );
}

#[test]
fn empty_choices_is_malformed() {
    assert_eq!(
        normalize(r#"{"choices":[]}"#),
        Err(ToolError::MalformedResponse { reason: Malformed::EmptyChoices })
    );
}

#[test]
fn empty_candidates_is_malformed() {
    assert_eq!(
        normalize(r#"{"candidates":[]}"#),
        Err(ToolError::MalformedResponse { reason: Malformed::EmptyCandidates })
    );
}

#[test]
fn first_choice_without_message_is_malformed() {
    assert_eq!(
        normalize(r#"{"choices":[{"index":0}]}"#),
        Err(ToolError::MalformedResponse { reason: Malformed::MissingMessage })
    );
}

#[test]
fn first_candidate_without_content_is_malformed() {
    assert_eq!(
        normalize(r#"{"candidates":[{"index":0}]}"#),
        Err(ToolError::MalformedResponse { reason: Malformed::MissingContent })
    );
}

#[test]
fn reply_without_envelope_is_malformed() {
    assert_eq!(
        normalize(r#"{"data":[{"b64_json":"AAAA"}]}"#),
        Err(ToolError::MalformedResponse { reason: Malformed::NoEnvelope })
    );
    assert_eq!(
        normalize(r#"[1,2,3]"#),
        Err(ToolError::MalformedResponse { reason: Malformed::NoEnvelope })
    );
}

#[test]
fn choices_that_is_no_array_falls_back_to_candidates() {
    let (text, _) = normalize(
        r#"{"choices":"none","candidates":[{"content":{"parts":[{"type":"text","text":"from candidates"}]}}]}"#,
    )
    .unwrap();
    assert_eq!(text, "from candidates");
}

#[test]
fn choices_win_over_candidates() {
    let (text, _) = normalize(
        r#"{"choices":[{"message":{"content":"first"}}],
            "candidates":[{"content":{"parts":[{"type":"text","text":"second"}]}}]}"#,
    )
    .unwrap();
    assert_eq!(text, "first");
}

#[test]
fn error_member_wins_over_everything() {
    let r = normalize(
        r#"{"error":{"message":"bad key"},"choices":[{"message":{"content":"hello"}}]}"#,
    );
    assert_eq!(r, Err(ToolError::Upstream { message: "bad key".to_string() }));
    let shown = r.unwrap_err().describe();
    assert!(shown.contains("bad key"));
    assert_eq!(shown, "API returned an error: bad key");
}

#[test]
fn error_without_message_has_the_default_text() {
    assert_eq!(
        normalize(r#"{"error":{"code":401}}"#),
        Err(ToolError::Upstream { message: "unknown error".to_string() })
    );
    assert_eq!(
        normalize(r#"{"error":"boom"}"#),
        Err(ToolError::Upstream { message: "unknown error".to_string() })
    );
    assert_eq!(
        normalize(r#"{"error":null,"choices":[{"message":{"content":"x"}}]}"#),
        Err(ToolError::Upstream { message: "unknown error".to_string() })
    );
}

#[test]
fn markdown_image_in_string_content() {
    let (text, images) = normalize(
        r#"{"choices":[{"message":{"content":"![a](data:image/png;base64,AAAA)plain"}}]}"#,
    )
    .unwrap();
    assert_eq!(text, "plain");
    assert_eq!(
        images,
        vec![ImageDescriptor {
            source_url: "data:image/png;base64,AAAA".to_string(),
            mime_hint: Some("image/png".to_string()),
        }]
    );
}

#[test]
fn content_of_only_an_image_gives_the_no_content_text() {
    let (text, images) = normalize(
        r#"{"choices":[{"message":{"content":"![a](data:image/png;base64,AAAA)"}}]}"#,
    )
    .unwrap();
    assert_eq!(text, "no content");
    assert_eq!(sources(&images), vec!["data:image/png;base64,AAAA"]);
}

#[test]
fn text_fragments_are_joined_by_line_feeds() {
    let (text, images) = normalize(
        r#"{"choices":[{"message":{"content":[
            {"type":"text","text":" one "},
            {"type":"image_url","image_url":{"url":"https://h/i.png"}},
            {"type":"text","text":"two ![x](data:image/jpeg;base64,QQ==)"},
            {"type":"audio","data":"zzz"},
            {"type":"text","text":"   "},
            {"type":"text","text":"three"}]}}]}"#,
    )
    .unwrap();
    assert_eq!(text, "one\ntwo\nthree");
    assert_eq!(sources(&images), vec!["https://h/i.png", "data:image/jpeg;base64,QQ=="]);
}

#[test]
fn parts_member_is_used_where_content_is_missing() {
    let (text, images) = normalize(
        r#"{"choices":[{"message":{"parts":[{"type":"text","text":"from parts"}]}}]}"#,
    )
    .unwrap();
    assert_eq!(text, "from parts");
    assert!(images.is_empty());
}

#[test]
fn message_itself_is_the_content_where_it_has_neither() {
    let (text, _) = normalize(r#"{"choices":[{"message":"bare text"}]}"#).unwrap();
    assert_eq!(text, "bare text");
    let (text, images) = normalize(
        r#"{"candidates":[{"content":[{"type":"text","text":"listed"},{"type":"image_url","image_url":{"url":"http://b"}}]}]}"#,
    )
    .unwrap();
    assert_eq!(text, "listed");
    assert_eq!(sources(&images), vec!["http://b"]);
}

#[test]
fn unrecognised_parts_are_ignored() {
    let (text, images) = normalize(
        r#"{"choices":[{"message":{"content":[
            {"type":"tool_call","text":"ignored"},
            {"text":"no type"},
            7,
            {"type":"text"},
            {"type":"image_url"}]}}]}"#,
    )
    .unwrap();
    assert_eq!(text, "no content");
    assert!(images.is_empty());
}

#[test]
fn images_attached_to_the_message_come_after_those_of_the_content() {
    let (text, images) = normalize(
        r#"{"choices":[{"message":{
            "content":[{"type":"image_url","image_url":{"url":"http://first"}},{"type":"text","text":"t"}],
            "images":[{"image_url":{"url":"data:image/webp;base64,AAA"}},{"other":1},{"image_url":{"url":"http://third"}}]}}]}"#,
    )
    .unwrap();
    assert_eq!(text, "t");
    assert_eq!(
        sources(&images),
        vec!["http://first", "data:image/webp;base64,AAA", "http://third"]
    );
    assert_eq!(images[1].mime_hint, Some("image/webp".to_string()));
}

#[test]
fn data_array_is_used_only_where_no_image_was_found() {
    let (text, images) = normalize(
        r#"{"choices":[{"message":{"content":"done"}}],
            "data":[{"b64_json":"QUJD"},{"url":"https://cdn/x.jpg"},{"revised_prompt":"p"},{"b64_json":7,"url":"http://u"}]}"#,
    )
    .unwrap();
    assert_eq!(text, "done");
    assert_eq!(
        sources(&images),
        vec!["data:image/png;base64,QUJD", "https://cdn/x.jpg", "http://u"]
    );
    assert_eq!(images[0].mime_hint, Some("image/png".to_string()));

    let (_, images) = normalize(
        r#"{"choices":[{"message":{"content":[{"type":"image_url","image_url":{"url":"http://only"}}]}}],
            "data":[{"b64_json":"QUJD"}]}"#,
    )
    .unwrap();
    assert_eq!(sources(&images), vec!["http://only"]);
}

#[test]
fn url_object_without_a_string_url_gives_an_empty_source() {
    let (_, images) = normalize(
        r#"{"choices":[{"message":{"content":[
            {"type":"image_url","image_url":{"detail":"high"}},
            {"type":"image_url","image_url":"http://not-an-object"},
            {"type":"image_url","image_url":{"url":5}}]}}]}"#,
    )
    .unwrap();
    assert_eq!(sources(&images), vec!["", "", ""]);
    assert_eq!(images[0].mime_hint, None);
}

#[test]
fn descriptor_reads_the_mime_type_off_a_data_uri() {
    assert_eq!(
        ImageDescriptor::new("data:image/jpeg;base64,AAAA"),
        ImageDescriptor {
            source_url: "data:image/jpeg;base64,AAAA".to_string(),
            mime_hint: Some("image/jpeg".to_string()),
        }
    );
    assert_eq!(ImageDescriptor::new("data:text/plain,hi").mime_hint, Some("text/plain".to_string()));
    assert_eq!(ImageDescriptor::new("data:;base64,AAAA").mime_hint, None);
    assert_eq!(ImageDescriptor::new("data:image/png").mime_hint, None);
    assert_eq!(ImageDescriptor::new("https://x/y.png").mime_hint, None);
    assert_eq!(ImageDescriptor::new("").mime_hint, None);
}

#[test]
fn merged_text_of_no_fragment_is_the_fixed_text() {
    assert_eq!(merge_texts(&vec![]), "no content");
    assert_eq!(merge_texts(&vec!["a".to_string()]), "a");
    assert_eq!(merge_texts(&vec!["a".to_string(), "b".to_string(), "c".to_string()]), "a\nb\nc");
}
