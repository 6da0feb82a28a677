use openrouter_mcp::error::{Malformed, ToolError};
use openrouter_mcp::persist::SavedImageInfo;
use openrouter_mcp::reply::ImageDescriptor;
use openrouter_mcp::tools::{
    edit_report, endpoint, generate_report, interpret_reply, read_reply, read_usage, ChatRequest,
    ContentPart, EditImageArgs, Reply, TokenUsage, MAX_TOKENS,
};

fn edit_args(images: &[&str]) -> EditImageArgs {
    EditImageArgs {
        instruction: "make it blue".to_string(),
        images: images.iter().map(|s| s.to_string()).collect(),
    }
}

#[test]
fn edit_without_images_is_a_usage_error() {
    assert_eq!(edit_args(&[]).check(), Err(ToolError::Usage));
    assert_eq!(edit_args(&["a.png"]).check(), Ok(()));
}

#[test]
fn usage_error_lists_the_three_formats() {
    let text = ToolError::Usage.describe();
    assert!(text.contains("URL (http:// or https://)"));
    assert!(text.contains("base64 data URI (data:image/...)"));
    assert!(text.contains("local file path"));
}

#[test]
fn errors_are_described() {
    assert_eq!(
        ToolError::Transport { detail: "connection refused".to_string() }.describe(),
        "request failed: connection refused"
    );
    assert_eq!(
        ToolError::UpstreamHttp { status: 429, body: "slow down".to_string() }.describe(),
        "API request failed, status: 429, error: slow down"
    );
    assert_eq!(
        ToolError::Upstream { message: "bad key".to_string() }.describe(),
        "API returned an error: bad key"
    );
    assert_eq!(
        ToolError::MalformedResponse { reason: Malformed::EmptyChoices }.describe(),
        "the 'choices' array of the reply is empty"
    );
    assert_eq!(
        ToolError::MalformedResponse { reason: Malformed::NotJson }.describe(),
        "failed to parse the reply: it is not JSON"
    );
    let e = ToolError::UpstreamHttp { status: 500, body: "x".to_string() };
    assert_eq!(e.duplicate(), e);
}

#[test]
fn base_name_comes_from_a_local_first_image() {
    assert_eq!(edit_args(&["C:\\Images\\photo.png", "http://x"]).base_name(), Some("photo".to_string()));
    assert_eq!(edit_args(&["dir/cat.final.jpg"]).base_name(), Some("cat.final".to_string()));
    assert_eq!(edit_args(&["https://x/y.png", "local.png"]).base_name(), None);
    assert_eq!(edit_args(&["data:image/png;base64,AA"]).base_name(), None);
    assert_eq!(edit_args(&[]).base_name(), None);
}

#[test]
fn generate_request_holds_the_prompt() {
    let r = ChatRequest::for_generate("m1", "cat");
    assert_eq!(
        r,
        ChatRequest {
            model: "m1".to_string(),
            content: vec![ContentPart::Text { text: "cat".to_string() }],
            max_tokens: 1000,
        }
    );
    assert_eq!(MAX_TOKENS, 1000);
    assert_eq!(r.duplicate(), r);
}

#[test]
fn edit_request_holds_instruction_and_images_in_order() {
    let urls = vec!["http://a".to_string(), "data:image/png;base64,QQ==".to_string()];
    let r = ChatRequest::for_edit("m2", "blue", &urls);
    assert_eq!(
        r,
        ChatRequest {
            model: "m2".to_string(),
            content: vec![
                ContentPart::Text { text: "blue".to_string() },
                ContentPart::ImageUrl { url: "http://a".to_string() },
                ContentPart::ImageUrl { url: "data:image/png;base64,QQ==".to_string() },
            ],
            max_tokens: 1000,
        }
    );
    assert_eq!(r.duplicate(), r);
}

#[test]
fn endpoint_is_the_chat_completions_path() {
    assert_eq!(endpoint("https://openrouter.ai/api/v1"), "https://openrouter.ai/api/v1/chat/completions");
}

#[test]
fn usage_needs_all_three_numbers() {
    let v: serde_json::Value = serde_json::from_str(
        r#"{"usage":{"prompt_tokens":3,"completion_tokens":4,"total_tokens":7}}"#,
    )
    .unwrap();
    assert_eq!(
        read_usage(&v),
        Some(TokenUsage { prompt_tokens: 3, completion_tokens: 4, total_tokens: 7 })
    );
    for text in [
        r#"{"usage":{"prompt_tokens":3,"completion_tokens":4}}"#,
        r#"{"usage":{"prompt_tokens":3,"completion_tokens":-4,"total_tokens":7}}"#,
        r#"{"usage":{"prompt_tokens":3.5,"completion_tokens":4,"total_tokens":7}}"#,
        r#"{"usage":{"prompt_tokens":"3","completion_tokens":4,"total_tokens":7}}"#,
        r#"{"usage":[3,4,7]}"#,
        r#"{}"#,
    ] {
        let v: serde_json::Value = serde_json::from_str(text).unwrap();
        assert_eq!(read_usage(&v), None, "{}", text);
    }
}

#[test]
fn reply_carries_text_images_and_usage() {
    let v: serde_json::Value = serde_json::from_str(
        r#"{"choices":[{"message":{"content":"hi"}}],"data":[{"url":"http://i"}],
            "usage":{"prompt_tokens":1,"completion_tokens":2,"total_tokens":3}}"#,
    )
    .unwrap();
    assert_eq!(
        read_reply(&v),
        Ok(Reply {
            text: "hi".to_string(),
            images: vec![ImageDescriptor { source_url: "http://i".to_string(), mime_hint: None }],
            usage: Some(TokenUsage { prompt_tokens: 1, completion_tokens: 2, total_tokens: 3 }),
        })
    );
}

#[test]
fn status_outside_the_two_hundreds_is_an_error_with_the_body() {
    for status in [0u16, 199, 300, 404, 500, 65535] {
        assert_eq!(
            interpret_reply(status, r#"{"choices":[{"message":{"content":"hi"}}]}"#),
            Err(ToolError::UpstreamHttp {
                status,
                body: r#"{"choices":[{"message":{"content":"hi"}}]}"#.to_string(),
            })
        );
    }
    for status in [200u16, 201, 299] {
        assert_eq!(
            interpret_reply(status, r#"{"choices":[{"message":{"content":"hi"}}]}"#),
            Ok(Reply { text: "hi".to_string(), images: vec![], usage: None })
        );
    }
}

#[test]
fn body_that_is_not_json_is_malformed() {
    for body in ["", "not json", "{\"choices\":", "{} trailing"] {
        assert_eq!(
            interpret_reply(200, body),
            Err(ToolError::MalformedResponse { reason: Malformed::NotJson })
        );
    }
    assert_eq!(
        interpret_reply(200, "{}"),
        Err(ToolError::MalformedResponse { reason: Malformed::NoEnvelope })
    );
    assert_eq!(
        interpret_reply(200, r#"{"error":{"message":"quota"}}"#),
        Err(ToolError::Upstream { message: "quota".to_string() })
    );
}

fn records() -> Vec<SavedImageInfo> {
    vec![
        SavedImageInfo {
            source_preview: "data:image/png;base64,AAAA".to_string(),
            saved_path: Some("out/cat_1.png".to_string()),
            diagnostic: "decoded from the data URI".to_string(),
        },
        SavedImageInfo {
            source_preview: "https://host/b.png".to_string(),
            saved_path: None,
            diagnostic: "download failed: timeout".to_string(),
        },
        SavedImageInfo {
            source_preview: "https://host/c.png".to_string(),
            saved_path: Some("out/cat_3.png".to_string()),
            diagnostic: String::new(),
        },
    ]
}

#[test]
fn report_of_a_generation() {
    let report = generate_report(
        "m",
        "a cat",
        "out",
        "here you are",
        3,
        &records(),
        Some(TokenUsage { prompt_tokens: 10, completion_tokens: 20, total_tokens: 30 }),
    );
    assert_eq!(
        report,
        "**Model:** m\n**Prompt:** a cat\n**Save directory:** out\n**Response:** here you are\
         \n\n**Generated images:** 3 images\
         \n- image 1: data:image/png;base64,AAAA...\n  saved to: out/cat_1.png\n  [note] decoded from the data URI\
         \n- image 2: https://host/b.png...\n  not saved to a file\n  [note] download failed: timeout\
         \n- image 3: https://host/c.png...\n  saved to: out/cat_3.png\
         \n\n**Usage:**\n- prompt tokens: 10\n- completion tokens: 20\n- total tokens: 30"
    );
}

#[test]
fn report_without_images_and_usage_is_the_header() {
    assert_eq!(
        generate_report("m", "p", "d", "no content", 0, &vec![], None),
        "**Model:** m\n**Prompt:** p\n**Save directory:** d\n**Response:** no content"
    );
}

#[test]
fn report_of_an_edit() {
    let one = vec![records().remove(0)];
    assert_eq!(
        edit_report("m", "make it blue", 12, "done", 1, &one, None),
        "**Model:** m\n**Instruction:** make it blue\n**Input images:** 12 images\n**Response:** done\
         \n\n**Generated images:** 1 images\
         \n- image 1: data:image/png;base64,AAAA...\n  saved to: out/cat_1.png\n  [note] decoded from the data URI"
    );
}
