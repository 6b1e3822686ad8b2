use mwf::text::chars_of;
use mwf::text::find;
use mwf::text::join_segments;
use mwf::text::owned_segments;
use mwf::text::split_segments;
use mwf::text::str_eq;
use mwf::text::IntoText;

/// Splitting drops what is empty.
#[test]
fn split_drops_empty_segments() {
    assert_eq!(Vec::<&str>::new(), split_segments(""));
    assert_eq!(Vec::<&str>::new(), split_segments("/"));
    assert_eq!(Vec::<&str>::new(), split_segments("////"));
    assert_eq!(vec!["foo"], split_segments("foo"));
    assert_eq!(vec!["foo"], split_segments("/foo/"));
    assert_eq!(vec!["foo", "bar"], split_segments("/foo/bar"));
    assert_eq!(vec!["foo", "bar"], split_segments("foo//bar"));
    assert_eq!(vec!["user", ":id", ":action?"], split_segments("/user/:id/:action?"));
    assert_eq!(vec!["é", "日本", "x"], split_segments("/é/日本//x"));
}

/// The owned pieces are the same as the borrowed ones.
#[test]
fn owned_segments_match_split_segments() {
    for path in ["", "/", "/a", "a/b/", "//a//b//c", "no-slash"] {
        let borrowed: Vec<String> = split_segments(path).iter().map(|x| x.to_string()).collect();
        assert_eq!(borrowed, owned_segments(path));
    }
}

/// Joining writes a slash between each two segments.
#[test]
fn join_puts_slashes_between() {
    assert_eq!("", join_segments(&vec![]));
    assert_eq!("a", join_segments(&vec!["a"]));
    assert_eq!("a/b", join_segments(&vec!["a", "b"]));
    assert_eq!("a/b/c", join_segments(&vec!["a", "b", "c"]));
    assert_eq!("/a", join_segments(&vec!["", "a"]));
}

/// Splitting undoes joining.
#[test]
fn split_undoes_join() {
    for parts in [vec![], vec!["a"], vec!["a", "b"], vec!["user", "42", "edit"]] {
        let whole = join_segments(&parts);
        assert_eq!(parts, split_segments(whole.as_str()));
    }
}

/// Comparison is by characters.
#[test]
fn str_eq_compares_characters() {
    assert!(str_eq("", ""));
    assert!(str_eq("abc", "abc"));
    assert!(!str_eq("abc", "abd"));
    assert!(!str_eq("abc", "ab"));
    assert!(!str_eq("ab", "abc"));
    assert!(!str_eq("", "a"));
    assert!(str_eq("héllo", "héllo"));
    assert!(!str_eq("héllo", "hello"));
}

/// The first occurrence at or after a position.
#[test]
fn find_gives_the_first_occurrence() {
    let hay = chars_of("abcabcabc");
    let needle = chars_of("bc");
    assert_eq!(Some(1), find(&hay, &needle, 0));
    assert_eq!(Some(1), find(&hay, &needle, 1));
    assert_eq!(Some(4), find(&hay, &needle, 2));
    assert_eq!(Some(7), find(&hay, &needle, 5));
    assert_eq!(None, find(&hay, &needle, 8));
    assert_eq!(None, find(&hay, &needle, 100));
    assert_eq!(None, find(&hay, &chars_of("cb"), 0));
    assert_eq!(None, find(&chars_of("ab"), &chars_of("abc"), 0));
    assert_eq!(Some(0), find(&hay, &chars_of(""), 0));
    assert_eq!(Some(9), find(&hay, &chars_of(""), 9));
    assert_eq!(None, find(&hay, &chars_of(""), 10));
    assert_eq!(Some(0), find(&chars_of("aaa"), &chars_of("aa"), 0));
    assert_eq!(Some(1), find(&chars_of("aaa"), &chars_of("aa"), 1));
}

/// The characters of a string, one entry each.
#[test]
fn chars_of_lists_characters() {
    assert_eq!(Vec::<char>::new(), chars_of(""));
    assert_eq!(vec!['a', 'é', '/'], chars_of("aé/"));
}

/// Text is taken over as it is.
#[test]
fn into_text_keeps_the_characters() {
    assert_eq!("abc", "abc".into_text());
    assert_eq!("abc", String::from("abc").into_text());
}
