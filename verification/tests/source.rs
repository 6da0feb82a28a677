use openrouter_mcp::source::{
    data_uri, extension_of_mime, extension_of_path, extension_of_source, join_path,
    mime_of_extension, mime_of_source, payload_of_source, source_is_data_image,
    source_is_data_uri, source_is_remote, stem_of_path,
};

fn chars(s: &str) -> Vec<char> {
    s.chars().collect()
}

fn text(v: Vec<char>) -> String {
    v.into_iter().collect()
}

#[test]
fn kinds_of_source_go_by_prefix() {
    assert!(source_is_remote(&chars("http://a")));
    assert!(source_is_remote(&chars("https://a")));
    assert!(!source_is_remote(&chars("ftp://a")));
    assert!(!source_is_remote(&chars("http:/")));
    assert!(source_is_data_image(&chars("data:image/png;base64,AA")));
    assert!(!source_is_data_image(&chars("data:text/plain,x")));
    assert!(source_is_data_uri(&chars("data:text/plain,x")));
    assert!(!source_is_data_uri(&chars("dat")));
}

#[test]
fn mime_and_payload_of_a_data_uri() {
    assert_eq!(mime_of_source(&chars("data:image/png;base64,AAAA")).map(text), Some("image/png".to_string()));
    assert_eq!(mime_of_source(&chars("data:image/png,AAAA")).map(text), Some("image/png".to_string()));
    assert_eq!(mime_of_source(&chars("data:,AAAA")), None);
    assert_eq!(mime_of_source(&chars("http://x")), None);
    assert_eq!(payload_of_source(&chars("data:image/png;base64,AA,BB")).map(text), Some("AA,BB".to_string()));
    assert_eq!(payload_of_source(&chars("data:image/png;base64,")).map(text), Some(String::new()));
    assert_eq!(payload_of_source(&chars("data:image/png;base64")), None);
    assert_eq!(payload_of_source(&chars("http://a,b")), None);
}

#[test]
fn extensions_and_mime_types() {
    assert_eq!(text(extension_of_mime(&chars("image/png"))), "png");
    assert_eq!(text(extension_of_mime(&chars("image/jpeg"))), "jpg");
    assert_eq!(text(extension_of_mime(&chars("IMAGE/JPG"))), "jpg");
    assert_eq!(text(extension_of_mime(&chars("image/gif"))), "gif");
    assert_eq!(text(extension_of_mime(&chars("image/webp"))), "webp");
    assert_eq!(text(extension_of_mime(&chars("image/bmp"))), "bmp");
    assert_eq!(text(extension_of_mime(&chars("image/svg+xml"))), "svg");
    assert_eq!(text(extension_of_mime(&chars("application/pdf"))), "png");
    assert_eq!(text(mime_of_extension(&chars("png"))), "image/png");
    assert_eq!(text(mime_of_extension(&chars("JPG"))), "image/jpeg");
    assert_eq!(text(mime_of_extension(&chars("jpeg"))), "image/jpeg");
    assert_eq!(text(mime_of_extension(&chars("gif"))), "image/gif");
    assert_eq!(text(mime_of_extension(&chars("webp"))), "image/webp");
    assert_eq!(text(mime_of_extension(&chars("bmp"))), "image/bmp");
    assert_eq!(text(mime_of_extension(&chars("svg"))), "image/svg+xml");
    assert_eq!(text(mime_of_extension(&chars(""))), "image/png");
}

#[test]
fn extension_of_a_source() {
    assert_eq!(text(extension_of_source(&chars("data:image/jpeg;base64,AA"))), "jpg");
    assert_eq!(text(extension_of_source(&chars("data:;base64,AA"))), "png");
    assert_eq!(text(extension_of_source(&chars("https://h/a/b.WEBP?x=1.gif#f"))), "webp");
    assert_eq!(text(extension_of_source(&chars("https://h/a/b.gif"))), "gif");
    assert_eq!(text(extension_of_source(&chars("https://h/a.b/c"))), "png");
    assert_eq!(text(extension_of_source(&chars("https://h/a/b.html"))), "png");
    assert_eq!(text(extension_of_source(&chars(""))), "png");
}

#[test]
fn stem_and_extension_of_a_path() {
    assert_eq!(text(stem_of_path(&chars("C:\\Images\\photo.png"))), "photo");
    assert_eq!(text(stem_of_path(&chars("/a/b/c.tar.gz"))), "c.tar");
    assert_eq!(text(stem_of_path(&chars("noext"))), "noext");
    assert_eq!(text(stem_of_path(&chars("dir/.hidden"))), ".hidden");
    assert_eq!(text(stem_of_path(&chars("dir/"))), "");
    assert_eq!(text(stem_of_path(&chars(""))), "");
    assert_eq!(text(extension_of_path(&chars("/a/b/c.tar.gz"))), "gz");
    assert_eq!(text(extension_of_path(&chars("a.b/c"))), "");
    assert_eq!(text(extension_of_path(&chars(".hidden"))), "");
    assert_eq!(text(extension_of_path(&chars("x."))), "");
}

#[test]
fn joining_a_directory_and_a_name() {
    assert_eq!(text(join_path(&chars("out"), &chars("a.png"))), "out/a.png");
    assert_eq!(text(join_path(&chars("out/"), &chars("a.png"))), "out/a.png");
    assert_eq!(text(join_path(&chars("C:\\out\\"), &chars("a.png"))), "C:\\out\\a.png");
    assert_eq!(text(join_path(&chars(""), &chars("a.png"))), "a.png");
}

#[test]
fn data_uri_is_put_together() {
    assert_eq!(data_uri(&chars("image/png"), "QUJD"), "data:image/png;base64,QUJD");
}
