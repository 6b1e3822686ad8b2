//! Media types: the tag that tells a client how to read a view's content.

use vstd::prelude::*;
use vstd::string::StringExecFns;

verus! {

/// A media type, such as `text/plain` or `image/svg+xml`.
pub struct Mime {
    top: String,
    sub: String,
    suffix: Option<String>,
}

/// What a [`Mime`] is, with its parts as sequences of characters.
pub struct MimeModel {
    /// The top-level type: `text` in `text/plain`.
    pub top: Seq<char>,
    /// The subtype: `plain` in `text/plain`, `svg` in `image/svg+xml`.
    pub sub: Seq<char>,
    /// The structured-syntax suffix: `xml` in `image/svg+xml`.
    pub suffix: Option<Seq<char>>,
}

impl MimeModel {
    /// The media type `text/plain`.
    pub open spec fn text_plain() -> MimeModel {
        MimeModel { top: "text"@, sub: "plain"@, suffix: None }
    }

    /// The media type `text/html`.
    pub open spec fn text_html() -> MimeModel {
        MimeModel { top: "text"@, sub: "html"@, suffix: None }
    }

    /// The media type written out: type, `/`, subtype and, where there is
    /// one, `+` and the suffix.
    pub open spec fn essence(self) -> Seq<char> {
        let base = self.top + seq!['/'] + self.sub;
        match self.suffix {
            Some(suffix) => base + seq!['+'] + suffix,
            None => base,
        }
    }
}

impl View for Mime {
    type V = MimeModel;

    closed spec fn view(&self) -> MimeModel {
        MimeModel {
            top: self.top@,
            sub: self.sub@,
            suffix: match self.suffix {
                Some(suffix) => Some(suffix@),
                None => None,
            },
        }
    }
}

impl DeepView for Mime {
    type V = MimeModel;

    open spec fn deep_view(&self) -> MimeModel {
        self@
    }
}

/// What `mime_guess::guess_mime_type_opt` returns for a path: the first
/// media type that its table lists for the path's extension, if any.
pub uninterp spec fn guessed_mime(path: Seq<char>) -> Option<MimeModel>;

impl Mime {
    /// The media type made of the given parts.
    pub fn new(top: String, sub: String, suffix: Option<String>) -> (mime: Mime)
        ensures
            mime@.top == top@,
            mime@.sub == sub@,
            mime@.suffix == suffix.deep_view(),
    {
        Mime { top, sub, suffix }
    }

    /// The media type `text/plain`.
    pub fn text_plain() -> (mime: Mime)
        ensures
            mime@ == MimeModel::text_plain(),
    {
        Mime { top: String::from_str("text"), sub: String::from_str("plain"), suffix: None }
    }

    /// The media type `text/html`.
    pub fn text_html() -> (mime: Mime)
        ensures
            mime@ == MimeModel::text_html(),
    {
        Mime { top: String::from_str("text"), sub: String::from_str("html"), suffix: None }
    }

    /// The top-level type.
    pub fn type_(&self) -> (top: &str)
        ensures
            top@ == self@.top,
    {
        self.top.as_str()
    }

    /// The subtype, without the suffix.
    pub fn subtype(&self) -> (sub: &str)
        ensures
            sub@ == self@.sub,
    {
        self.sub.as_str()
    }

    /// The suffix, if the media type has one.
    pub fn suffix(&self) -> (suffix: Option<&str>)
        ensures
            suffix.deep_view() == self@.suffix,
    {
        match &self.suffix {
            Some(suffix) => Some(suffix.as_str()),
            None => None,
        }
    }

    /// The media type written out, as it stands in a `Content-Type` header.
    pub fn essence(&self) -> (text: String)
        ensures
            text@ == self@.essence(),
    {
        let mut text = self.top.clone();
        text.append("/");
        text.append(self.sub.as_str());
        proof {
            reveal_strlit("/");
            reveal_strlit("+");
            assert("/"@ == seq!['/']);
            assert("+"@ == seq!['+']);
        }
        match &self.suffix {
            Some(suffix) => {
                text.append("+");
                text.append(suffix.as_str());
            },
            None => {},
        }
        text
    }

    /// The media type to use for a file, given what was guessed from its
    /// path: the guess, or `text/plain` without one.
    pub fn or_plain(guess: Option<Mime>) -> (mime: Mime)
        ensures
            mime@ == match guess {
                Some(found) => found@,
                None => MimeModel::text_plain(),
            },
    {
        match guess {
            Some(found) => found,
            None => Mime::text_plain(),
        }
    }
}

/// Calls `mime_guess::guess_mime_type_opt`, which looks the extension of
/// `path` up in a fixed table without touching the disk, and copies the
/// type, subtype and suffix of the media type it returns.
#[verifier::external_body]
#[allow(deprecated)]
pub(crate) fn guess_from_extension(path: &str) -> (guess: Option<Mime>)
    ensures
        guess.deep_view() == guessed_mime(path@),
{
    match mime_guess::guess_mime_type_opt(path) {
        Some(found) => Some(
            Mime {
                top: found.type_().as_str().to_string(),
                sub: found.subtype().as_str().to_string(),
                suffix: found.suffix().map(|name| name.as_str().to_string()),
            },
        ),
        None => None,
    }
}

} // verus!
