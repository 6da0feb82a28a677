use openrouter_mcp::classify::{
    classify_literal, local_payload, lookup_paths, ClassifiedImageInput, ImageInputKind,
    InputResolver, InputUnrecognized, ResolveStep,
};

#[test]
fn url_is_passed_on_unchanged() {
    assert_eq!(
        classify_literal("https://x/y.png"),
        Some(ClassifiedImageInput { kind: ImageInputKind::Url, payload: "https://x/y.png".to_string() })
    );
    assert_eq!(
        classify_literal("http://x/y"),
        Some(ClassifiedImageInput { kind: ImageInputKind::Url, payload: "http://x/y".to_string() })
    );
}

#[test]
fn data_uri_is_passed_on_unchanged() {
    assert_eq!(
        classify_literal("data:image/png;base64,AA"),
        Some(ClassifiedImageInput {
            kind: ImageInputKind::Base64,
            payload: "data:image/png;base64,AA".to_string(),
        })
    );
}

#[test]
fn anything_else_is_a_local_reference() {
    assert_eq!(classify_literal("photo.png"), None);
    assert_eq!(classify_literal("HTTP://upper"), None);
    assert_eq!(classify_literal("data:text/plain,hi"), None);
    assert_eq!(classify_literal("htt"), None);
    assert_eq!(classify_literal(""), None);
}

#[test]
fn resolver_of_a_url_is_done_at_once() {
    let r = InputResolver::new("https://x/y.png", "/save");
    assert_eq!(
        r.step(),
        ResolveStep::Done(ClassifiedImageInput {
            kind: ImageInputKind::Url,
            payload: "https://x/y.png".to_string(),
        })
    );
    assert_eq!(r.found(b"abc"), Err(InputUnrecognized));
}

#[test]
fn paths_of_a_name_with_extension() {
    assert_eq!(
        lookup_paths("cat.png", "/save"),
        vec!["cat.png".to_string(), "/save/cat.png".to_string()]
    );
    assert_eq!(
        lookup_paths("sub/cat", "/save/"),
        vec!["sub/cat".to_string(), "/save/sub/cat".to_string()]
    );
    assert_eq!(lookup_paths("a.b", ""), vec!["a.b".to_string(), "a.b".to_string()]);
    assert_eq!(
        lookup_paths("x.jpg", "C:\\Images\\"),
        vec!["x.jpg".to_string(), "C:\\Images\\x.jpg".to_string()]
    );
}

#[test]
fn paths_of_a_bare_name_probe_the_extensions() {
    assert_eq!(
        lookup_paths("cat", "out"),
        vec![
            "cat".to_string(),
            "out/cat".to_string(),
            "out/cat.png".to_string(),
            "out/cat.jpg".to_string(),
            "out/cat.jpeg".to_string(),
            "out/cat.gif".to_string(),
            "out/cat.webp".to_string(),
            "out/cat.bmp".to_string(),
        ]
    );
}

#[test]
fn nonexistent_path_ends_unrecognized() {
    let mut r = InputResolver::new("nowhere", "/save");
    let mut asked = Vec::new();
    loop {
        match r.step() {
            ResolveStep::Read { path } => {
                asked.push(path);
                r.missing();
            }
            ResolveStep::Unrecognized => break,
            ResolveStep::Done(c) => panic!("unexpected {:?}", c),
        }
    }
    assert_eq!(asked, lookup_paths("nowhere", "/save"));
    assert_eq!(asked.len(), 8);
    assert_eq!(r.found(b"abc"), Err(InputUnrecognized));
    r.missing();
    assert_eq!(r.step(), ResolveStep::Unrecognized);
}

#[test]
fn file_at_the_given_path_counts_as_base64() {
    let r = InputResolver::new("pics/cat.JPG", "/save");
    assert_eq!(r.step(), ResolveStep::Read { path: "pics/cat.JPG".to_string() });
    assert_eq!(
        r.found(b"hello"),
        Ok(ClassifiedImageInput {
            kind: ImageInputKind::Base64,
            payload: "data:image/jpeg;base64,aGVsbG8=".to_string(),
        })
    );
}

#[test]
fn file_in_the_save_directory_counts_as_resolved() {
    let mut r = InputResolver::new("cat", "/save");
    r.missing();
    r.missing();
    assert_eq!(r.step(), ResolveStep::Read { path: "/save/cat.png".to_string() });
    r.missing();
    r.missing();
    r.missing();
    assert_eq!(r.step(), ResolveStep::Read { path: "/save/cat.gif".to_string() });
    assert_eq!(
        r.found(&[0u8, 1, 2, 255]),
        Ok(ClassifiedImageInput {
            kind: ImageInputKind::LocalFileResolved,
            payload: "data:image/gif;base64,AAEC/w==".to_string(),
        })
    );
}

#[test]
fn payload_takes_the_type_from_the_extension() {
    assert_eq!(local_payload("a.webp", b"ab"), "data:image/webp;base64,YWI=");
    assert_eq!(local_payload("a.svg", b"abc"), "data:image/svg+xml;base64,YWJj");
    assert_eq!(local_payload("dir.d/noext", b""), "data:image/png;base64,");
    assert_eq!(local_payload("a.tiff", b"a"), "data:image/png;base64,YQ==");
    // The wrapper must not hand its argument back: the text is base64.
    assert_ne!(local_payload("a.png", b"raw"), "data:image/png;base64,raw");
}
