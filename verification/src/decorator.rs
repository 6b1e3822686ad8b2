//! Decorators: transformations from one view to another, which can be
//! chained by [`View::apply`].

use vstd::prelude::*;
use vstd::view::View as _;
use vstd::string::StrSliceExecFns;
use vstd::string::StringExecFns;
use crate::mime::MimeModel;
use crate::text::chars_of;
use crate::text::find;
use crate::text::first_occurrence;
use crate::text::is_first_occurrence;
use crate::text::lemma_first_occurrence_is;
use crate::text::occurs_at;
use crate::text::IntoText;
use crate::view::View;
use crate::view::ViewModel;

verus! {

/// Anything that can decorate a view in some way: it takes a view and
/// gives back a new one.
///
/// Because a decorator gives back a view, decorators can be chained with
/// the view's `apply` method; the one applied first is the innermost.
pub trait Decorator {
    /// Whether `out` is a view that this decorator may make of `view`. A
    /// decorator that does not say promises nothing.
    open spec fn decorates(&self, view: ViewModel, out: ViewModel) -> bool {
        true
    }

    /// Applies this decorator to `view`.
    fn decorate(&self, view: View) -> (out: View)
        ensures
            self.decorates(view@, out@),
    ;
}

/// The HTML that `pulldown_cmark` renders for markdown source, with no
/// extension enabled.
pub uninterp spec fn markdown_html(source: Seq<char>) -> Seq<char>;

/// Parses `source` with `pulldown_cmark::Parser::new` and renders the
/// events into a fresh string with `pulldown_cmark::html::push_html`.
#[verifier::external_body]
fn render_markdown(source: &str) -> (html: String)
    ensures
        html@ == markdown_html(source@),
{
    let mut output = String::new();
    pulldown_cmark::html::push_html(&mut output, pulldown_cmark::Parser::new(source));
    output
}

/// A decorator which treats the content of the view as markdown and
/// renders it to HTML. The media type becomes `text/html`.
pub struct Markdown;

impl Markdown {
    /// The view that rendering makes of `view`: its content rendered to
    /// HTML, with the media type `text/html`.
    pub open spec fn rendered(view: ViewModel) -> ViewModel {
        ViewModel { content: markdown_html(view.content), mime: MimeModel::text_html() }
    }
}

impl Decorator for Markdown {
    open spec fn decorates(&self, view: ViewModel, out: ViewModel) -> bool {
        out == Markdown::rendered(view)
    }

    fn decorate(&self, view: View) -> (out: View) {
        View::html(render_markdown(view.content.as_str()))
    }
}

/// The delimiter that splits a template into what goes before the content
/// and what goes after it.
pub open spec fn middle() -> Seq<char> {
    "{{middle}}"@
}

/// The prefix and the suffix that a template stands for.
///
/// Without a delimiter the whole template is the suffix. Otherwise the
/// prefix is the text before the first delimiter, and the suffix the text
/// between the first delimiter and the next one, or the end.
pub open spec fn template_parts(template: Seq<char>) -> (Seq<char>, Seq<char>) {
    match first_occurrence(template, middle(), 0) {
        None => (Seq::empty(), template),
        Some(first) => {
            let after = first + middle().len();
            let end = match first_occurrence(template, middle(), after) {
                Some(next) => next,
                None => template.len() as int,
            };
            (template.take(first), template.subrange(after, end))
        },
    }
}

/// A decorator which surrounds the content of the view with a preset
/// prefix and suffix. The media type is kept.
pub struct Surround {
    pre: String,
    post: String,
}

impl Surround {
    /// The text put before the content.
    pub closed spec fn pre(&self) -> Seq<char> {
        self.pre@
    }

    /// The text put after the content.
    pub closed spec fn post(&self) -> Seq<char> {
        self.post@
    }

    /// The view that this decorator makes of `view`: its content between
    /// the prefix and the suffix, with its media type.
    pub open spec fn surrounded(&self, view: ViewModel) -> ViewModel {
        ViewModel { content: self.pre() + view.content + self.post(), mime: view.mime }
    }

    /// Creates a decorator which puts `pre` before the content of a view
    /// and `post` after it.
    pub fn new<T: IntoText, U: IntoText>(pre: T, post: U) -> (made: Self)
        ensures
            made.pre() == pre.text(),
            made.post() == post.text(),
    {
        Surround { pre: pre.into_text(), post: post.into_text() }
    }

    /// Creates a decorator from a template, split on the delimiter
    /// `{{middle}}`. If the delimiter is not found, all of the template is
    /// put after the content. Text after a second delimiter is dropped.
    pub fn from<T: IntoText>(input: T) -> (made: Self)
        ensures
            (made.pre(), made.post()) == template_parts(input.text()),
    {
        let input = input.into_text();
        let hay = chars_of(input.as_str());
        let needle = chars_of("{{middle}}");
        match find(&hay, &needle, 0) {
            None => Surround { pre: String::new(), post: input },
            Some(first) => {
                assert(first + needle@.len() <= hay@.len());
                assert(hay@.len() == hay.len());
                let after = first + needle.len();
                let end = match find(&hay, &needle, after) {
                    Some(next) => next,
                    None => hay.len(),
                };
                assert(input@.take(first as int) == input@.subrange(0, first as int));
                let pre = input.as_str().substring_char(0, first).to_owned();
                let post = input.as_str().substring_char(after, end).to_owned();
                Surround { pre, post }
            },
        }
    }
}

impl Decorator for Surround {
    open spec fn decorates(&self, view: ViewModel, out: ViewModel) -> bool {
        out == self.surrounded(view)
    }

    fn decorate(&self, view: View) -> (out: View) {
        let mut content = self.pre.clone();
        content.append(view.content.as_str());
        content.append(self.post.as_str());
        View { content, mime: view.mime }
    }
}

} // verus!

verus! {

/// Whether `out` is a view that applying `first` and then `second` may
/// make of `view`.
pub open spec fn applied_in_turn<A: Decorator, B: Decorator>(
    first: &A,
    second: &B,
    view: ViewModel,
    out: ViewModel,
) -> bool {
    exists|between: ViewModel| #[trigger]
        first.decorates(view, between) && second.decorates(between, out)
}

/// Chaining is associative: to apply two decorators in turn and then a
/// third makes of a view what the first, followed by the other two in
/// turn, makes of it.
pub proof fn lemma_chaining_is_associative<A: Decorator, B: Decorator, C: Decorator>(
    first: &A,
    second: &B,
    third: &C,
    view: ViewModel,
    out: ViewModel,
)
    ensures
        (exists|late: ViewModel| #[trigger]
            applied_in_turn(first, second, view, late) && third.decorates(late, out)) <==> (
        exists|early: ViewModel| #[trigger]
            first.decorates(view, early) && applied_in_turn(second, third, early, out)),
{
    if exists|late: ViewModel| #[trigger]
        applied_in_turn(first, second, view, late) && third.decorates(late, out) {
        let late = choose|late: ViewModel| #[trigger]
            applied_in_turn(first, second, view, late) && third.decorates(late, out);
        let early = choose|early: ViewModel| #[trigger]
            first.decorates(view, early) && second.decorates(early, late);
        assert(second.decorates(early, late) && third.decorates(late, out));
        assert(first.decorates(view, early) && applied_in_turn(second, third, early, out));
    }
    if exists|early: ViewModel| #[trigger]
        first.decorates(view, early) && applied_in_turn(second, third, early, out) {
        let early = choose|early: ViewModel| #[trigger]
            first.decorates(view, early) && applied_in_turn(second, third, early, out);
        let late = choose|late: ViewModel| #[trigger]
            second.decorates(early, late) && third.decorates(late, out);
        assert(first.decorates(view, early) && second.decorates(early, late));
        assert(applied_in_turn(first, second, view, late) && third.decorates(late, out));
    }
}

/// The decorator applied first is the innermost: of two surrounds applied
/// in turn, the prefix and the suffix of the second enclose those of the
/// first.
pub proof fn lemma_surrounds_nest(
    first: &Surround,
    second: &Surround,
    view: ViewModel,
    out: ViewModel,
)
    ensures
        applied_in_turn(first, second, view, out) <==> out == (ViewModel {
            content: second.pre() + first.pre() + view.content + first.post() + second.post(),
            mime: view.mime,
        }),
{
    let inner = first.pre() + view.content + first.post();
    assert(second.pre() + inner + second.post() =~= second.pre() + first.pre() + view.content
        + first.post() + second.post());
    let nested = ViewModel {
        content: second.pre() + first.pre() + view.content + first.post() + second.post(),
        mime: view.mime,
    };
    assert(second.surrounded(first.surrounded(view)) == nested);
    if out == nested {
        assert(first.decorates(view, first.surrounded(view)) && second.decorates(
            first.surrounded(view),
            out,
        ));
    }
}

/// The order of a markdown and a surround matters: applied first, the
/// surround's text is rendered with the content; applied second, it
/// encloses the rendered content as it stands.
pub proof fn lemma_markdown_and_surround(surround: &Surround, view: ViewModel, out: ViewModel)
    ensures
        applied_in_turn(surround, &Markdown, view, out) <==> out == (ViewModel {
            content: markdown_html(surround.pre() + view.content + surround.post()),
            mime: MimeModel::text_html(),
        }),
        applied_in_turn(&Markdown, surround, view, out) <==> out == (ViewModel {
            content: surround.pre() + markdown_html(view.content) + surround.post(),
            mime: MimeModel::text_html(),
        }),
{
    let first = ViewModel {
        content: markdown_html(surround.pre() + view.content + surround.post()),
        mime: MimeModel::text_html(),
    };
    let second = ViewModel {
        content: surround.pre() + markdown_html(view.content) + surround.post(),
        mime: MimeModel::text_html(),
    };
    assert(Markdown::rendered(surround.surrounded(view)) == first);
    assert(surround.surrounded(Markdown::rendered(view)) == second);
    if out == first {
        assert(surround.decorates(view, surround.surrounded(view)) && Markdown.decorates(
            surround.surrounded(view),
            out,
        ));
    }
    if out == second {
        assert(Markdown.decorates(view, Markdown::rendered(view)) && surround.decorates(
            Markdown::rendered(view),
            out,
        ));
    }
}

/// A template without the delimiter is all suffix: nothing is put before
/// the content.
pub proof fn lemma_template_without_delimiter(template: Seq<char>)
    requires
        forall|i: int| !occurs_at(template, middle(), i),
    ensures
        template_parts(template) == (Seq::<char>::empty(), template),
{
}

/// A template with the delimiter at `first`, and next at `next`, stands
/// for the text before `first` and the text between the two delimiters:
/// what follows the second delimiter is dropped.
pub proof fn lemma_template_with_two_delimiters(template: Seq<char>, first: int, next: int)
    requires
        is_first_occurrence(template, middle(), 0, first),
        is_first_occurrence(template, middle(), first + middle().len(), next),
    ensures
        template_parts(template) == (
            template.take(first),
            template.subrange(first + middle().len(), next),
        ),
{
    lemma_first_occurrence_is(template, middle(), 0, first);
    lemma_first_occurrence_is(template, middle(), first + middle().len(), next);
}

/// A template with the delimiter at `first`, and nowhere after it, stands
/// for the text before the delimiter and the text after it.
pub proof fn lemma_template_with_one_delimiter(template: Seq<char>, first: int)
    requires
        is_first_occurrence(template, middle(), 0, first),
        forall|i: int| first + middle().len() <= i ==> !occurs_at(template, middle(), i),
    ensures
        template_parts(template) == (
            template.take(first),
            template.skip(first + middle().len()),
        ),
{
    lemma_first_occurrence_is(template, middle(), 0, first);
    assert(template.subrange(first + middle().len(), template.len() as int) == template.skip(
        first + middle().len(),
    ));
}

} // verus!
