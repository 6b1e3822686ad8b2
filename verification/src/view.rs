//! Views: what a request handler hands back to be sent to the client.

use vstd::prelude::*;
use vstd::view::View as _;
use crate::decorator::Decorator;
use crate::mime::guess_from_extension;
use crate::mime::guessed_mime;
use crate::mime::Mime;
use crate::mime::MimeModel;
use crate::text::IntoText;

verus! {

/// A view on the server: content, and the media type to send it with.
pub struct View {
    /// The content to display.
    pub content: String,
    /// The media type of the content.
    pub mime: Mime,
}

/// What a [`View`] is, with its content as a sequence of characters.
pub struct ViewModel {
    pub content: Seq<char>,
    pub mime: MimeModel,
}

impl vstd::view::View for View {
    type V = ViewModel;

    open spec fn view(&self) -> ViewModel {
        ViewModel { content: self.content@, mime: self.mime@ }
    }
}

impl View {
    /// Constructs a view from `content` and its media type.
    pub fn new(content: String, mime: Mime) -> (view: Self)
        ensures
            view@ == (ViewModel { content: content@, mime: mime@ }),
    {
        View { content, mime }
    }

    /// Constructs a view from the raw text in `content`, with the media
    /// type `text/plain`.
    pub fn raw<T: IntoText>(content: T) -> (view: Self)
        ensures
            view@ == (ViewModel { content: content.text(), mime: MimeModel::text_plain() }),
    {
        View::new(content.into_text(), Mime::text_plain())
    }

    /// Constructs a view from HTML in `content`, with the media type
    /// `text/html`.
    pub fn html(content: String) -> (view: Self)
        ensures
            view@ == (ViewModel { content: content@, mime: MimeModel::text_html() }),
    {
        View::new(content, Mime::text_html())
    }

    /// Constructs a view from `content` and from the media type that was
    /// guessed for it; without a guess the media type is `text/plain`.
    pub fn guessed(content: String, guess: Option<Mime>) -> (view: Self)
        ensures
            view@.content == content@,
            view@.mime == match guess {
                Some(found) => found@,
                None => MimeModel::text_plain(),
            },
    {
        View::new(content, Mime::or_plain(guess))
    }

    /// Constructs a view from the `content` of the file at `path`. The
    /// media type is guessed from the extension of `path`, and is
    /// `text/plain` where no guess can be made.
    pub fn file<T: IntoText>(path: T, content: String) -> (view: Self)
        ensures
            view@.content == content@,
            view@.mime == match guessed_mime(path.text()) {
                Some(found) => found,
                None => MimeModel::text_plain(),
            },
    {
        let path = path.into_text();
        View::guessed(content, guess_from_extension(path.as_str()))
    }

    /// Applies `decorator` to this view, consuming it and creating another
    /// one.
    pub fn apply<T: Decorator>(self, decorator: &T) -> (view: Self)
        ensures
            decorator.decorates(self@, view@),
    {
        decorator.decorate(self)
    }
}

} // verus!
