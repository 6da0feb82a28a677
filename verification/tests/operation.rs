use openrouter_mcp::error::{Malformed, ToolError};
use openrouter_mcp::operation::{Operation, Outcome, Step};
use openrouter_mcp::persist::PersistEvent;
use openrouter_mcp::tools::{ChatRequest, ContentPart, EditImageArgs, GenerateImageArgs};

/// A host for tests: files that can be read, one canned reply, pages that
/// can be fetched, and the directory that files are written to.
struct Host {
    readable: Vec<(String, Vec<u8>)>,
    reply: Result<(u16, String), String>,
    pages: Vec<(String, Vec<u8>)>,
    disk: Vec<(String, Vec<u8>)>,
    sent: Vec<ChatRequest>,
    reads: Vec<String>,
}

impl Host {
    fn new(status: u16, body: &str) -> Host {
        Host {
            readable: Vec::new(),
            reply: Ok((status, body.to_string())),
            pages: Vec::new(),
            disk: Vec::new(),
            sent: Vec::new(),
            reads: Vec::new(),
        }
    }

    fn run(&mut self, mut op: Operation) -> Result<String, ToolError> {
        loop {
            let outcome = match op.step() {
                Step::Finish { report } => {
                    assert!(op.is_over());
                    return Ok(report);
                }
                Step::Fail { error } => {
                    assert!(op.is_over());
                    return Err(error);
                }
                Step::ReadFile { path } => {
                    self.reads.push(path.clone());
                    match self.readable.iter().find(|(p, _)| *p == path) {
                        Some((_, bytes)) => Outcome::FileRead(bytes.clone()),
                        None => Outcome::FileMissing,
                    }
                }
                Step::Send { request } => {
                    self.sent.push(request);
                    match &self.reply {
                        Ok((status, body)) => Outcome::Replied { status: *status, body: body.clone() },
                        Err(detail) => Outcome::SendFailed(detail.clone()),
                    }
                }
                Step::Fetch { url } => match self.pages.iter().find(|(u, _)| *u == url) {
                    Some((_, bytes)) => Outcome::Stored(PersistEvent::Fetched(bytes.clone())),
                    None => Outcome::Stored(PersistEvent::FetchFailed("not found".to_string())),
                },
                Step::WriteFile { path } => {
                    if self.disk.iter().any(|(p, _)| *p == path) {
                        Outcome::Stored(PersistEvent::AlreadyExists)
                    } else {
                        let bytes = op.payload().expect("a write has its bytes").clone();
                        self.disk.push((path, bytes));
                        Outcome::Stored(PersistEvent::Written)
                    }
                }
            };
            assert!(!op.is_over());
            op = op.advance(outcome);
        }
    }
}

fn generate(prompt: &str) -> Operation {
    Operation::generate("model-x", "/save", 77, &GenerateImageArgs { prompt: prompt.to_string() })
}

fn edit(images: &[&str]) -> Operation {
    Operation::edit(
        "model-x",
        "/save",
        77,
        &EditImageArgs {
            instruction: "make it blue".to_string(),
            images: images.iter().map(|s| s.to_string()).collect(),
        },
    )
}

#[test]
fn edit_without_images_fails_before_anything_is_sent() {
    let mut host = Host::new(200, r#"{"choices":[{"message":{"content":"hi"}}]}"#);
    let op = edit(&[]);
    assert!(op.is_over());
    assert_eq!(op.step(), Step::Fail { error: ToolError::Usage });
    let op = op.advance(Outcome::Replied { status: 200, body: "{}".to_string() });
    assert_eq!(op.step(), Step::Fail { error: ToolError::Usage });
    assert_eq!(host.run(op), Err(ToolError::Usage));
    assert!(host.sent.is_empty());
    assert!(host.reads.is_empty());
    assert!(host.disk.is_empty());
}

#[test]
fn generation_with_one_b64_image_end_to_end() {
    let mut host = Host::new(
        200,
        r#"{"choices":[{"message":{"content":"a cat"}}],"data":[{"b64_json":"aGVsbG8="}]}"#,
    );
    let report = host.run(generate("cat")).unwrap();
    assert_eq!(
        host.sent,
        vec![ChatRequest {
            model: "model-x".to_string(),
            content: vec![ContentPart::Text { text: "cat".to_string() }],
            max_tokens: 1000,
        }]
    );
    assert_eq!(host.disk, vec![("/save/generated_image.png".to_string(), b"hello".to_vec())]);
    assert!(report.contains("1 images"));
    assert_eq!(
        report,
        "**Model:** model-x\n**Prompt:** cat\n**Save directory:** /save\n**Response:** a cat\
         \n\n**Generated images:** 1 images\
         \n- image 1: data:image/png;base64,aGVsbG8=...\n  saved to: /save/generated_image.png\n  [note] decoded from the data URI"
    );
}

#[test]
fn generation_without_images_reports_the_text_only() {
    let mut host = Host::new(
        200,
        r#"{"choices":[{"message":{"content":"just words"}}],
            "usage":{"prompt_tokens":1,"completion_tokens":2,"total_tokens":3}}"#,
    );
    assert_eq!(
        host.run(generate("cat")).unwrap(),
        "**Model:** model-x\n**Prompt:** cat\n**Save directory:** /save\n**Response:** just words\
         \n\n**Usage:**\n- prompt tokens: 1\n- completion tokens: 2\n- total tokens: 3"
    );
    assert!(host.disk.is_empty());
}

#[test]
fn transport_failure_ends_the_run() {
    let mut host = Host::new(200, "");
    host.reply = Err("connection reset".to_string());
    assert_eq!(
        host.run(generate("cat")),
        Err(ToolError::Transport { detail: "connection reset".to_string() })
    );
    assert!(host.disk.is_empty());
}

#[test]
fn http_error_carries_status_and_body() {
    let mut host = Host::new(503, "overloaded");
    assert_eq!(
        host.run(generate("cat")),
        Err(ToolError::UpstreamHttp { status: 503, body: "overloaded".to_string() })
    );
}

#[test]
fn upstream_error_and_malformed_reply_end_the_run() {
    let mut host = Host::new(200, r#"{"error":{"message":"bad key"},"choices":[]}"#);
    assert_eq!(host.run(generate("cat")), Err(ToolError::Upstream { message: "bad key".to_string() }));
    let mut host = Host::new(200, r#"{"choices":[]}"#);
    assert_eq!(
        host.run(generate("cat")),
        Err(ToolError::MalformedResponse { reason: Malformed::EmptyChoices })
    );
    let mut host = Host::new(200, "<html>");
    assert_eq!(
        host.run(generate("cat")),
        Err(ToolError::MalformedResponse { reason: Malformed::NotJson })
    );
}

#[test]
fn edit_resolves_its_images_in_order() {
    let mut host = Host::new(
        200,
        r#"{"choices":[{"message":{"content":[
            {"type":"text","text":"blue now"},
            {"type":"image_url","image_url":{"url":"data:image/jpeg;base64,QQ=="}},
            {"type":"image_url","image_url":{"url":"https://cdn/out.webp"}},
            {"type":"image_url","image_url":{"url":"https://cdn/gone.png"}}]}}]}"#,
    );
    host.readable = vec![
        ("pics/cat.png".to_string(), b"abc".to_vec()),
        ("/save/dog.jpg".to_string(), b"hello".to_vec()),
    ];
    host.pages = vec![("https://cdn/out.webp".to_string(), b"webp-bytes".to_vec())];
    host.disk = vec![("/save/cat_1.jpg".to_string(), b"old".to_vec())];
    let op = edit(&["pics/cat.png", "https://x/y.png", "dog", "ghost.png", "data:image/png;base64,AA"]);
    let report = host.run(op).unwrap();
    assert_eq!(
        host.reads,
        vec![
            "pics/cat.png",
            "dog",
            "/save/dog",
            "/save/dog.png",
            "/save/dog.jpg",
            "ghost.png",
            "/save/ghost.png",
        ]
    );
    assert_eq!(
        host.sent,
        vec![ChatRequest {
            model: "model-x".to_string(),
            content: vec![
                ContentPart::Text { text: "make it blue".to_string() },
                ContentPart::ImageUrl { url: "data:image/png;base64,YWJj".to_string() },
                ContentPart::ImageUrl { url: "https://x/y.png".to_string() },
                ContentPart::ImageUrl { url: "data:image/jpeg;base64,aGVsbG8=".to_string() },
                ContentPart::ImageUrl { url: "ghost.png".to_string() },
                ContentPart::ImageUrl { url: "data:image/png;base64,AA".to_string() },
            ],
            max_tokens: 1000,
        }]
    );
    assert_eq!(
        host.disk,
        vec![
            ("/save/cat_1.jpg".to_string(), b"old".to_vec()),
            ("/save/cat_1_1.jpg".to_string(), b"A".to_vec()),
            ("/save/cat_2.webp".to_string(), b"webp-bytes".to_vec()),
        ]
    );
    assert_eq!(
        report,
        "**Model:** model-x\n**Instruction:** make it blue\n**Input images:** 5 images\n**Response:** blue now\
         \n\n**Generated images:** 3 images\
         \n- image 1: data:image/jpeg;base64,QQ==...\n  saved to: /save/cat_1_1.jpg\n  [note] decoded from the data URI\
         \n- image 2: https://cdn/out.webp...\n  saved to: /save/cat_2.webp\n  [note] downloaded from the URL\
         \n- image 3: https://cdn/gone.png...\n  not saved to a file\n  [note] download failed: not found"
    );
}

#[test]
fn edit_of_remote_images_names_its_files_by_the_stamp() {
    let mut host = Host::new(
        200,
        r#"{"candidates":[{"content":{"parts":[{"type":"image_url","image_url":{"url":"data:image/gif;base64,QQ=="}}]}}]}"#,
    );
    let report = host.run(edit(&["https://x/y.png"])).unwrap();
    assert!(host.reads.is_empty());
    assert_eq!(host.disk, vec![("/save/edited_image_77.gif".to_string(), b"A".to_vec())]);
    assert!(report.starts_with("**Model:** model-x\n**Instruction:** make it blue\n**Input images:** 1 images\n**Response:** no content"));
}

#[test]
fn all_images_failing_is_still_a_report() {
    let mut host = Host::new(
        200,
        r#"{"choices":[{"message":{"content":"x","images":[{"image_url":{"url":"https://cdn/a.png"}},{"image_url":{}}]}}]}"#,
    );
    let report = host.run(generate("cat")).unwrap();
    assert!(host.disk.is_empty());
    assert_eq!(
        report,
        "**Model:** model-x\n**Prompt:** cat\n**Save directory:** /save\n**Response:** x\
         \n\n**Generated images:** 2 images\
         \n- image 1: https://cdn/a.png...\n  not saved to a file\n  [note] download failed: not found\
         \n- image 2: ...\n  not saved to a file\n  [note] the source is neither a URL nor a data URI"
    );
}

#[test]
fn stray_report_leaves_the_run_as_it_is() {
    let op = generate("cat");
    let before = op.step();
    let op = op.advance(Outcome::FileMissing);
    let op = op.advance(Outcome::FileRead(vec![1]));
    let op = op.advance(Outcome::Stored(PersistEvent::Written));
    assert_eq!(op.step(), before);
    assert_eq!(op.payload(), None);
    let op = edit(&["local.png"]);
    assert_eq!(op.step(), Step::ReadFile { path: "local.png".to_string() });
    let op = op.advance(Outcome::Replied { status: 200, body: "{}".to_string() });
    let op = op.advance(Outcome::SendFailed("x".to_string()));
    assert_eq!(op.step(), Step::ReadFile { path: "local.png".to_string() });
}
