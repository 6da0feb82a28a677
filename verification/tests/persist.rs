use openrouter_mcp::persist::{
    name_for, preview, stem_for, PersistAction, PersistEvent, PersistSession, SavedImageInfo,
    MAX_ATTEMPTS, PREVIEW_CHARS,
};
use openrouter_mcp::reply::ImageDescriptor;

fn images(sources: &[&str]) -> Vec<ImageDescriptor> {
    sources.iter().map(|s| ImageDescriptor::new(s)).collect()
}

/// Drives a session against a directory that already holds `taken`, and
/// returns what was written, with the records.
fn run(
    session: PersistSession,
    taken: &[&str],
) -> (Vec<(String, Vec<u8>)>, Vec<SavedImageInfo>) {
    run_in(session, taken, &[])
}

/// As `run`, in a directory where the paths of `locked` cannot be written.
fn run_in(
    mut session: PersistSession,
    taken: &[&str],
    locked: &[&str],
) -> (Vec<(String, Vec<u8>)>, Vec<SavedImageInfo>) {
    let mut written: Vec<(String, Vec<u8>)> = Vec::new();
    loop {
        match session.action() {
            PersistAction::Done => break,
            PersistAction::Fetch { url } => {
                if url.contains("broken") {
                    session.handle(PersistEvent::FetchFailed("status 404".to_string()));
                } else {
                    session.handle(PersistEvent::Fetched(url.into_bytes()));
                }
            }
            PersistAction::Write { path } => {
                let exists =
                    taken.contains(&path.as_str()) || written.iter().any(|(p, _)| *p == path);
                if exists {
                    session.handle(PersistEvent::AlreadyExists);
                } else if locked.contains(&path.as_str()) {
                    session.handle(PersistEvent::WriteFailed("permission denied".to_string()));
                } else {
                    let bytes = session.payload().expect("a write has its bytes").clone();
                    written.push((path, bytes));
                    session.handle(PersistEvent::Written);
                }
            }
        }
    }
    assert!(session.is_finished());
    assert_eq!(session.payload(), None);
    (written, session.into_results())
}

#[test]
fn preview_is_the_first_fifty_characters() {
    assert_eq!(PREVIEW_CHARS, 50);
    assert_eq!(preview("short"), "short");
    let long = "x".repeat(49) + "\u{e9}" + "tail";
    assert_eq!(preview(&long), "x".repeat(49) + "\u{e9}");
    assert_eq!(preview(""), "");
}

#[test]
fn stem_is_the_base_name_or_a_word_and_the_stamp() {
    assert_eq!(stem_for(Some("photo"), true, 7), "photo");
    assert_eq!(stem_for(None, true, 1700000000), "edited_image_1700000000");
    assert_eq!(stem_for(None, false, 0), "generated_image_0");
    assert_eq!(stem_for(None, false, u64::MAX), "generated_image_18446744073709551615");
}

#[test]
fn file_names_carry_index_and_attempt() {
    assert_eq!(name_for("img", 0, 1, 0, "png"), "img.png");
    assert_eq!(name_for("img", 0, 1, 3, "png"), "img_3.png");
    assert_eq!(name_for("img", 0, 2, 0, "jpg"), "img_1.jpg");
    assert_eq!(name_for("img", 1, 2, 0, "jpg"), "img_2.jpg");
    assert_eq!(name_for("img", 11, 12, 10, "webp"), "img_12_10.webp");
}

#[test]
fn data_uri_is_decoded_and_written() {
    let session = PersistSession::new(
        images(&["data:image/png;base64,aGVsbG8="]),
        "out",
        Some("generated_image"),
        false,
        1,
    );
    let (written, records) = run(session, &[]);
    assert_eq!(written, vec![("out/generated_image.png".to_string(), b"hello".to_vec())]);
    assert_eq!(
        records,
        vec![SavedImageInfo {
            source_preview: "data:image/png;base64,aGVsbG8=".to_string(),
            saved_path: Some("out/generated_image.png".to_string()),
            diagnostic: "decoded from the data URI".to_string(),
        }]
    );
}

#[test]
fn two_images_with_one_base_name_get_two_paths() {
    let session = PersistSession::new(
        images(&["data:image/png;base64,QQ==", "data:image/png;base64,Qg=="]),
        "out",
        Some("same"),
        true,
        1,
    );
    let (written, records) = run(session, &[]);
    assert_eq!(
        written,
        vec![
            ("out/same_1.png".to_string(), b"A".to_vec()),
            ("out/same_2.png".to_string(), b"B".to_vec())
        ]
    );
    assert_eq!(records.len(), 2);
    assert_ne!(records[0].saved_path, records[1].saved_path);
}

#[test]
fn existing_file_is_never_replaced() {
    let session = PersistSession::new(
        images(&["data:image/gif;base64,QQ=="]),
        "out/",
        Some("pic"),
        true,
        1,
    );
    let (written, records) = run(session, &["out/pic.gif", "out/pic_1.gif"]);
    assert_eq!(written, vec![("out/pic_2.gif".to_string(), b"A".to_vec())]);
    assert_eq!(records[0].saved_path, Some("out/pic_2.gif".to_string()));
}

#[test]
fn remote_image_is_fetched_by_the_host() {
    let session =
        PersistSession::new(images(&["https://cdn/a/b.JPEG?sig=1"]), "", None, false, 42);
    assert_eq!(session.action(), PersistAction::Fetch { url: "https://cdn/a/b.JPEG?sig=1".to_string() });
    assert_eq!(session.payload(), None);
    let (written, records) = run(session, &[]);
    assert_eq!(
        written,
        vec![("generated_image_42.jpeg".to_string(), b"https://cdn/a/b.JPEG?sig=1".to_vec())]
    );
    assert_eq!(
        records,
        vec![SavedImageInfo {
            source_preview: "https://cdn/a/b.JPEG?sig=1".to_string(),
            saved_path: Some("generated_image_42.jpeg".to_string()),
            diagnostic: "downloaded from the URL".to_string(),
        }]
    );
}

#[test]
fn failures_are_recorded_and_the_batch_goes_on() {
    let long = format!("data:image/png;base64,{}", "!".repeat(80));
    let session = PersistSession::new(
        images(&[
            "data:image/png;base64,@@@",
            "https://host/broken.png",
            "",
            "data:image/png;base64",
            "ftp://host/x.png",
            "https://host/readonly.png",
            long.as_str(),
            "data:image/webp;base64,Zm9v",
        ]),
        "d",
        Some("b"),
        true,
        9,
    );
    let (written, records) = run_in(session, &[], &["d/b_6.png"]);
    assert_eq!(written, vec![("d/b_8.webp".to_string(), b"foo".to_vec())]);
    let fail = |source: &str, reason: &str| SavedImageInfo {
        source_preview: source.chars().take(50).collect(),
        saved_path: None,
        diagnostic: reason.to_string(),
    };
    assert_eq!(
        records,
        vec![
            fail("data:image/png;base64,@@@", "the payload is not valid base64"),
            fail("https://host/broken.png", "download failed: status 404"),
            fail("", "the source is neither a URL nor a data URI"),
            fail("data:image/png;base64", "the data URI has no payload"),
            fail("ftp://host/x.png", "the source is neither a URL nor a data URI"),
            fail("https://host/readonly.png", "write failed: permission denied"),
            fail(long.as_str(), "the payload is not valid base64"),
            SavedImageInfo {
                source_preview: "data:image/webp;base64,Zm9v".to_string(),
                saved_path: Some("d/b_8.webp".to_string()),
                diagnostic: "decoded from the data URI".to_string(),
            },
        ]
    );
    assert_eq!(records[6].source_preview.chars().count(), 50);
}

#[test]
fn batch_without_images_is_finished_at_once() {
    let session = PersistSession::new(Vec::new(), "out", None, false, 1);
    assert!(session.is_finished());
    assert_eq!(session.action(), PersistAction::Done);
    assert_eq!(session.into_results(), Vec::new());
}

#[test]
fn stray_report_leaves_the_session_as_it_is() {
    let mut session =
        PersistSession::new(images(&["https://h/a.png"]), "out", Some("n"), false, 1);
    session.handle(PersistEvent::Written);
    session.handle(PersistEvent::AlreadyExists);
    session.handle(PersistEvent::WriteFailed("x".to_string()));
    assert_eq!(session.action(), PersistAction::Fetch { url: "https://h/a.png".to_string() });
    assert_eq!(session.records().len(), 0);
    session.handle(PersistEvent::Fetched(vec![1, 2, 3]));
    session.handle(PersistEvent::Fetched(vec![9]));
    session.handle(PersistEvent::FetchFailed("late".to_string()));
    assert_eq!(session.action(), PersistAction::Write { path: "out/n.png".to_string() });
    assert_eq!(session.payload(), Some(&vec![1u8, 2, 3]));
    session.handle(PersistEvent::Written);
    assert!(session.is_finished());
    session.handle(PersistEvent::Written);
    assert_eq!(session.records().len(), 1);
}

#[test]
fn name_that_stays_taken_is_given_up() {
    assert_eq!(MAX_ATTEMPTS, 1000);
    let mut session = PersistSession::new(
        images(&["data:image/png;base64,QQ==", "data:image/png;base64,Qg=="]),
        "out",
        Some("busy"),
        false,
        1,
    );
    let mut asked = 0u64;
    while let PersistAction::Write { path } = session.action() {
        if path.starts_with("out/busy_2") {
            break;
        }
        if asked == 999 {
            assert_eq!(path, "out/busy_1_999.png");
        }
        asked += 1;
        session.handle(PersistEvent::AlreadyExists);
    }
    assert_eq!(asked, 1000);
    assert_eq!(
        session.records()[0],
        SavedImageInfo {
            source_preview: "data:image/png;base64,QQ==".to_string(),
            saved_path: None,
            diagnostic: "no free file name was found".to_string(),
        }
    );
    assert_eq!(session.action(), PersistAction::Write { path: "out/busy_2.png".to_string() });
}
