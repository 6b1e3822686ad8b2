use mwf::Mime;
use mwf::View;

/// Tests the [View::raw] API's ability to take in a `&'static str`
#[test]
fn from_raw_str() {
    // &'static str => View
    let view = View::raw("foobar");
    assert_eq!("foobar", view.content);
    assert_eq!("text", view.mime.type_());
    assert_eq!("plain", view.mime.subtype());
}

/// Tests the [View::raw] API's ability to take a `String`.
#[test]
fn from_string() {
    // String => View
    let view = View::raw("foobar".to_string());
    assert_eq!("foobar", view.content);
}

/// Test the [View::file] API's ability to keep the content of a source
/// file as it was read.
#[test]
fn from_file() {
    let contents = "use std::path::PathBuf;\n\npub struct View;\n";
    let view = View::file("src/view.rs", contents.to_string());
    assert_eq!(contents, view.content);
}

/// Tests the [View::file] API's correct detection of mime types.
#[test]
fn from_correct_mime_type() {
    let view = View::file("src/view.rs", "fn main() {}".to_string());
    assert_eq!("text", view.mime.type_());
    assert_eq!("x-rust", view.mime.subtype());
}

/// A path without a known extension gets `text/plain`.
#[test]
fn file_without_known_extension_is_plain_text() {
    let view = View::file("notes", "hello".to_string());
    assert_eq!("text", view.mime.type_());
    assert_eq!("plain", view.mime.subtype());
    assert_eq!(None, view.mime.suffix());

    let view = View::file("archive.no-such-extension".to_string(), "hello".to_string());
    assert_eq!("text/plain", view.mime.essence());
}

/// The guess goes by the extension, whatever its case, and keeps a suffix.
#[test]
fn file_media_type_follows_the_extension() {
    let view = View::file("index.html", "<p></p>".to_string());
    assert_eq!("text/html", view.mime.essence());

    let view = View::file("INDEX.HTML", "<p></p>".to_string());
    assert_eq!("text/html", view.mime.essence());

    let view = View::file("drawing.svg", "<svg/>".to_string());
    assert_eq!("image", view.mime.type_());
    assert_eq!("svg", view.mime.subtype());
    assert_eq!(Some("xml"), view.mime.suffix());
    assert_eq!("image/svg+xml", view.mime.essence());
}

/// A view made from raw content hands back that content and `text/plain`.
#[test]
fn raw_round_trip() {
    for content in ["", "a", "line one\nline two", "{{middle}}", "ünïcödé"] {
        let view = View::raw(content);
        assert_eq!(content, view.content);
        assert_eq!("text/plain", view.mime.essence());
    }
}

/// A view made with a guess takes it, and falls back to `text/plain`.
#[test]
fn guessed_uses_the_guess_or_plain_text() {
    let guess = Mime::new("application".to_string(), "json".to_string(), None);
    let view = View::guessed("{}".to_string(), Some(guess));
    assert_eq!("application/json", view.mime.essence());
    assert_eq!("{}", view.content);

    let view = View::guessed("{}".to_string(), None);
    assert_eq!("text/plain", view.mime.essence());

    let plain = Mime::or_plain(None);
    assert_eq!("plain", plain.subtype());
    assert_eq!("html", Mime::text_html().subtype());
    assert_eq!("plain", Mime::text_plain().subtype());
}

/// A view made of content and a media type holds both.
#[test]
fn new_holds_content_and_media_type() {
    let mime = Mime::new("image".to_string(), "svg".to_string(), Some("xml".to_string()));
    let view = View::new("<svg/>".to_string(), mime);
    assert_eq!("<svg/>", view.content);
    assert_eq!("image/svg+xml", view.mime.essence());
}
