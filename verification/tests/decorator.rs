use mwf::decorator::Markdown;
use mwf::decorator::Surround;
use mwf::View;

/// Test if the [Surround::new] API accepts two `&'static str`s as
/// parameters and makes a view correctly from them.
#[test]
fn surround_new_strs() {
    let dec = Surround::new("foo", "baz");
    let view = View::raw("bar").apply(&dec);
    assert_eq!("foobarbaz", view.content);
}

/// Test if the [Surround::new] API accepts two `String`s as parameters.
#[test]
fn surround_new_strings() {
    let dec = Surround::new("foo".to_string(), "baz".to_string());
    let view = View::raw("bar").apply(&dec);
    assert_eq!("foobarbaz", view.content);
}

/// Test if the [Surround::new] API can mix and match between
/// `&'static str`s and `String`s
#[test]
fn surround_new_mixed() {
    let dec = Surround::new("foo".to_string(), "baz");
    let view = View::raw("bar").apply(&dec);
    assert_eq!("foobarbaz", view.content);

    let dec = Surround::new("foo", "baz".to_string());
    let view = View::raw("bar").apply(&dec);
    assert_eq!("foobarbaz", view.content);
}

/// Tests the [Surround::from] API's ability to split on the `{{middle}}`
/// delimiter and still applies to a view correctly.
#[test]
fn surround_from_with_delimiter() {
    let dec = Surround::from("foo{{middle}}baz");
    let view = View::raw("bar").apply(&dec);
    assert_eq!("foobarbaz", view.content);
}

/// Tests the [Surround::from] API's ability to handle the case when there
/// is no delimiter in the given string.
#[test]
fn surround_from_without_delimiter() {
    let dec = Surround::from("barbaz");
    let view = View::raw("foo").apply(&dec);
    assert_eq!("foobarbaz", view.content);
}

/// Tests the [Surround::from] API's ability to handle the case when there
/// are multiple delimiters in the given string.
#[test]
fn surround_from_with_multiple_delimiters() {
    let dec = Surround::from("foo{{middle}}baz{{middle}}quz");
    let view = View::raw("bar").apply(&dec);
    assert_eq!("foobarbaz", view.content);
}

/// Tests the [Markdown] decorator's ability to correctly convert markdown
/// source into html, and also change the mime type to `text/html`.
#[test]
fn markdown() {
    let dec = Markdown;
    let view = View::raw("# Hello world!").apply(&dec);
    assert_eq!("<h1>Hello world!</h1>\n", view.content);
    assert_eq!("text", view.mime.type_());
    assert_eq!("html", view.mime.subtype());
}

/// Tests the ability to chain [View::apply] functions together and have
/// each [Decorator] work together.
#[test]
fn apply_chaining() {
    let surround = Surround::new("*foo", "baz*");
    let md = Markdown;
    let view = View::raw("bar").apply(&surround).apply(&md);
    assert_eq!("<p><em>foobarbaz</em></p>\n", view.content);
    assert_eq!("text", view.mime.type_());
    assert_eq!("html", view.mime.subtype());
}

/// The order of application matters: a surround applied before markdown is
/// rendered with the content, applied after it encloses the rendered text.
#[test]
fn chaining_is_not_commutative() {
    let stars = Surround::new("*", "*");
    let first = View::raw("bar").apply(&stars).apply(&Markdown);
    let second = View::raw("bar").apply(&Markdown).apply(&stars);
    assert_eq!("<p><em>bar</em></p>\n", first.content);
    assert_eq!("*<p>bar</p>\n*", second.content);
    assert_ne!(first.content, second.content);
}

/// Of two surrounds, the one applied first is the innermost.
#[test]
fn surrounds_nest_in_order() {
    let inner = Surround::new("(", ")");
    let outer = Surround::new("[", "]");
    let view = View::raw("x").apply(&inner).apply(&outer);
    assert_eq!("[(x)]", view.content);
    let view = View::raw("x").apply(&outer).apply(&inner);
    assert_eq!("([x])", view.content);
    assert_eq!("plain", view.mime.subtype());
}

/// Three decorators applied in turn.
#[test]
fn three_decorators_in_turn() {
    let page = Surround::from("<body>{{middle}}</body>");
    let bold = Surround::new("**", "**");
    let view = View::raw("hi").apply(&bold).apply(&Markdown).apply(&page);
    assert_eq!("<body><p><strong>hi</strong></p>\n</body>", view.content);
    assert_eq!("html", view.mime.subtype());
}

/// Markdown renders emphasis, and does not hand its input back.
#[test]
fn markdown_renders_emphasis() {
    let view = View::raw("some *text*").apply(&Markdown);
    assert_eq!("<p>some <em>text</em></p>\n", view.content);
    let view = View::raw("").apply(&Markdown);
    assert_eq!("", view.content);
    assert_eq!("html", view.mime.subtype());
}

/// The edges of a template: the delimiter alone, at the start, at the end,
/// twice in a row, and a broken delimiter.
#[test]
fn surround_from_edge_cases() {
    let view = View::raw("x").apply(&Surround::from("{{middle}}"));
    assert_eq!("x", view.content);

    let view = View::raw("x").apply(&Surround::from("{{middle}}after"));
    assert_eq!("xafter", view.content);

    let view = View::raw("x").apply(&Surround::from("before{{middle}}"));
    assert_eq!("beforex", view.content);

    let view = View::raw("x").apply(&Surround::from("a{{middle}}{{middle}}b"));
    assert_eq!("ax", view.content);

    let view = View::raw("x").apply(&Surround::from("a{{middle}b"));
    assert_eq!("xa{{middle}b", view.content);

    let view = View::raw("x").apply(&Surround::from(""));
    assert_eq!("x", view.content);

    let view = View::raw("x").apply(&Surround::from("é{{middle}}ü{{middle}}ö".to_string()));
    assert_eq!("éxü", view.content);
}

/// A surround keeps the media type of the view.
#[test]
fn surround_keeps_the_media_type() {
    let view = View::html("<b>x</b>".to_string()).apply(&Surround::new("<p>", "</p>"));
    assert_eq!("<p><b>x</b></p>", view.content);
    assert_eq!("text", view.mime.type_());
    assert_eq!("html", view.mime.subtype());
}
