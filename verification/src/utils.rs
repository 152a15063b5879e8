use vstd::prelude::*;

use crate::sysroot::opt_text;
use crate::text::{
    chars_of, find_last, find_occurrence, is_first_occurrence, is_last_at,
};

verus! {

/// How sure a suggestion is to be right.
#[derive(PartialEq, Eq, Structural, Clone, Copy, Debug)]
pub enum Applicability {
    MachineApplicable,
    MaybeIncorrect,
    HasPlaceholders,
    Unspecified,
}

/// A note attached to a lint message; `S` stands for a place in the source.
#[derive(PartialEq, Eq, Debug, Clone)]
pub enum Note<S> {
    /// A help message without a place.
    Help(String),
    /// A help message at a place.
    SpanHelp(S, String),
    /// A suggestion: at a place, a help message, the replacement text and how
    /// sure it is.
    Suggestion(S, String, String, Applicability),
    /// A note without a place.
    Note(String),
    /// A note at a place.
    SpanNote(S, String),
    /// A label on a place.
    SpanLabel(S, String),
}

/// The model of a `Note`, with texts in place of strings.
pub enum NoteView<S> {
    Help(Seq<char>),
    SpanHelp(S, Seq<char>),
    Suggestion(S, Seq<char>, Seq<char>, Applicability),
    Note(Seq<char>),
    SpanNote(S, Seq<char>),
    SpanLabel(S, Seq<char>),
}

impl<S> View for Note<S> {
    type V = NoteView<S>;

    open spec fn view(&self) -> NoteView<S> {
        match self {
            Note::Help(h) => NoteView::Help(h@),
            Note::SpanHelp(s, h) => NoteView::SpanHelp(*s, h@),
            Note::Suggestion(s, h, t, a) => NoteView::Suggestion(*s, h@, t@, *a),
            Note::Note(t) => NoteView::Note(t@),
            Note::SpanNote(s, t) => NoteView::SpanNote(*s, t@),
            Note::SpanLabel(s, t) => NoteView::SpanLabel(*s, t@),
        }
    }
}

/// A lint message at a place, with its notes in the order they are shown.
#[derive(PartialEq, Eq, Debug, Clone)]
pub struct Diagnostic<S> {
    pub span: S,
    pub msg: String,
    pub notes: Vec<Note<S>>,
}

/// The model of a `Diagnostic`.
pub struct DiagnosticView<S> {
    pub span: S,
    pub msg: Seq<char>,
    pub notes: Seq<NoteView<S>>,
}

/// The models of some notes.
pub open spec fn note_views<S>(notes: Seq<Note<S>>) -> Seq<NoteView<S>> {
    notes.map_values(|n: Note<S>| n@)
}

impl<S> View for Diagnostic<S> {
    type V = DiagnosticView<S>;

    open spec fn view(&self) -> DiagnosticView<S> {
        DiagnosticView { span: self.span, msg: self.msg@, notes: note_views(self.notes@) }
    }
}

/// Whether lint messages point to the lint documentation, and for which release.
#[derive(PartialEq, Eq, Debug, Clone)]
pub struct DocsLinks {
    /// Links are shown (they are switched off by `CLIPPY_DISABLE_DOCS_LINKS`).
    pub enabled: bool,
    /// The release number the program was built for (`RUST_RELEASE_NUM`), if any.
    pub release_num: Option<String>,
}

impl DocsLinks {
    /// A release number, where links are shown, holds a `.`.
    pub open spec fn ready(&self) -> bool {
        self.enabled ==> match self.release_num {
            Some(n) => exists|i: int| 0 <= i < n@.len() && #[trigger] n@[i] == '.',
            None => true,
        }
    }
}

impl DocsLinks {
    /// Whether `ready` holds: links are off, or the release number, if any, holds a `.`.
    pub fn is_ready(&self) -> (r: bool)
        ensures
            r == self.ready(),
    {
        if !self.enabled {
            return true;
        }
        match &self.release_num {
            Some(n) => {
                let cs = chars_of(n.as_str());
                let found = find_last(&cs, '.');
                proof {
                    if let Some(i) = found {
                        assert(n@[i as int] == '.');
                    }
                }
                found.is_some()
            },
            None => true,
        }
    }
}

/// The documentation release a link points to: `master`, or `rust-` and the
/// release number without its last component.
pub open spec fn release_part(release_num: Option<Seq<char>>) -> Seq<char> {
    match release_num {
        None => "master"@,
        Some(n) => "rust-"@ + n.take(choose|i: int| is_last_at(n, '.', i)),
    }
}

/// The anchor of a lint on its documentation page: its lower-case name with
/// the first `clippy::` taken out.
pub open spec fn lint_anchor(name: Seq<char>) -> Seq<char> {
    if exists|k: int| is_first_occurrence(name, "clippy::"@, k) {
        let k = choose|k: int| is_first_occurrence(name, "clippy::"@, k);
        name.take(k) + name.skip(k + "clippy::"@.len())
    } else {
        name
    }
}

/// The help text that points to the documentation of a lint.
pub open spec fn docs_text(release_num: Option<Seq<char>>, name: Seq<char>) -> Seq<char> {
    "for further information visit https://rust-lang.github.io/rust-clippy/"@ + release_part(
        release_num,
    ) + "/index.html#"@ + lint_anchor(name)
}

/// The documentation note for a lint, where links are shown.
pub open spec fn docs_note(links: DocsLinks, name: Seq<char>) -> Option<Seq<char>> {
    if links.enabled {
        Some(docs_text(opt_text(links.release_num), name))
    } else {
        None
    }
}

/// `notes` followed by the documentation note, if there is one.
pub open spec fn with_docs<S>(notes: Seq<NoteView<S>>, doc: Option<Seq<char>>) -> Seq<NoteView<S>> {
    match doc {
        Some(t) => notes.push(NoteView::Help(t)),
        None => notes,
    }
}

/// The help text that points to the documentation of the lint whose
/// lower-case name is `lint_name_lower`, or `None` where links are off.
pub fn docs_link(lint_name_lower: &str, links: &DocsLinks) -> (r: Option<String>)
    requires
        links.ready(),
    ensures
        opt_text(r) == docs_note(*links, lint_name_lower@),
{
    if !links.enabled {
        return None;
    }
    let mut text = "for further information visit https://rust-lang.github.io/rust-clippy/".to_owned();
    match &links.release_num {
        None => {
            text.append("master");
        },
        Some(n) => {
            let cs = chars_of(n.as_str());
            match find_last(&cs, '.') {
                Some(p) => {
                    proof {
                        let q = choose|i: int| is_last_at(n@, '.', i);
                        assert(q == p as int);
                    }
                    text.append("rust-");
                    text.append(n.as_str().substring_char(0, p));
                },
                None => {
                    assert(false);
                },
            }
        },
    }
    text.append("/index.html#");
    let name = chars_of(lint_name_lower);
    let pat = chars_of("clippy::");
    match find_occurrence(&name, &pat) {
        Some(k) => {
            proof {
                let q = choose|j: int| is_first_occurrence(name@, pat@, j);
                if q < k as int {
                    assert(!crate::text::occurs_at(name@, pat@, q));
                }
                if k < q {
                    assert(!crate::text::occurs_at(name@, pat@, k as int));
                }
                assert(q == k as int);
                assert(k + pat@.len() <= name@.len());
            }
            let nlen = name.len();
            assert(k + pat.len() <= nlen);
            let rest = k + pat.len();
            text.append(lint_name_lower.substring_char(0, k));
            text.append(lint_name_lower.substring_char(rest, nlen));
        },
        None => {
            text.append(lint_name_lower);
        },
    }
    proof {
        assert(text@ =~= docs_text(opt_text(links.release_num), lint_name_lower@));
    }
    Some(text)
}

/// Puts the documentation note, if any, after `notes`.
fn push_docs_note<S>(notes: &mut Vec<Note<S>>, lint_name_lower: &str, links: &DocsLinks)
    requires
        links.ready(),
    ensures
        note_views(final(notes)@) == with_docs(note_views(old(notes)@), docs_note(*links, lint_name_lower@)),
{
    let ghost before = note_views(notes@);
    match docs_link(lint_name_lower, links) {
        Some(t) => {
            notes.push(Note::Help(t));
            assert(note_views(notes@) =~= before.push(NoteView::Help(docs_note(*links, lint_name_lower@).unwrap())));
        },
        None => {},
    }
}

/// A lint message `msg` at `sp`, with the documentation note.
pub fn span_lint<S>(links: &DocsLinks, lint_name_lower: &str, sp: S, msg: &str) -> (d: Diagnostic<S>)
    requires
        links.ready(),
    ensures
        d@ == (DiagnosticView {
            span: sp,
            msg: msg@,
            notes: with_docs(seq![], docs_note(*links, lint_name_lower@)),
        }),
{
    let mut notes: Vec<Note<S>> = Vec::new();
    assert(note_views(notes@) =~= seq![]);
    push_docs_note(&mut notes, lint_name_lower, links);
    Diagnostic { span: sp, msg: msg.to_owned(), notes }
}

/// The help note of `span_lint_and_help`: at `help_span` where there is one.
pub open spec fn help_note<S>(help_span: Option<S>, help: Seq<char>) -> NoteView<S> {
    match help_span {
        Some(s) => NoteView::SpanHelp(s, help),
        None => NoteView::Help(help),
    }
}

/// A lint message with a help message, at `help_span` if given, and the
/// documentation note.
pub fn span_lint_and_help<S>(
    links: &DocsLinks,
    lint_name_lower: &str,
    span: S,
    msg: &str,
    help_span: Option<S>,
    help: &str,
) -> (d: Diagnostic<S>)
    requires
        links.ready(),
    ensures
        d@ == (DiagnosticView {
            span: span,
            msg: msg@,
            notes: with_docs(seq![help_note(help_span, help@)], docs_note(*links, lint_name_lower@)),
        }),
{
    let mut notes: Vec<Note<S>> = Vec::new();
    match help_span {
        Some(hs) => notes.push(Note::SpanHelp(hs, help.to_owned())),
        None => notes.push(Note::Help(help.to_owned())),
    }
    assert(note_views(notes@) =~= seq![help_note(help_span, help@)]);
    push_docs_note(&mut notes, lint_name_lower, links);
    Diagnostic { span, msg: msg.to_owned(), notes }
}

/// A lint message with the notes `added` (what the caller puts on it),
/// followed by the documentation note.
pub fn span_lint_and_then<S>(
    links: &DocsLinks,
    lint_name_lower: &str,
    sp: S,
    msg: &str,
    added: Vec<Note<S>>,
) -> (d: Diagnostic<S>)
    requires
        links.ready(),
    ensures
        d@ == (DiagnosticView {
            span: sp,
            msg: msg@,
            notes: with_docs(note_views(added@), docs_note(*links, lint_name_lower@)),
        }),
{
    let mut notes = added;
    push_docs_note(&mut notes, lint_name_lower, links);
    Diagnostic { span: sp, msg: msg.to_owned(), notes }
}

/// The model of what `span_lint_and_sugg` gives.
pub open spec fn sugg_diagnostic<S>(
    links: DocsLinks,
    name: Seq<char>,
    sp: S,
    msg: Seq<char>,
    help: Seq<char>,
    sugg: Seq<char>,
    applicability: Applicability,
) -> DiagnosticView<S> {
    DiagnosticView {
        span: sp,
        msg: msg,
        notes: with_docs(
            seq![NoteView::Suggestion(sp, help, sugg, applicability)],
            docs_note(links, name),
        ),
    }
}

/// Law: the message of `span_lint_and_sugg` stands at the given place with
/// the given text, and its first note is the suggestion at that same place
/// with the given help, replacement and applicability, whatever that
/// applicability is; the documentation note follows only where links are on.
pub proof fn lemma_suggestion_as_given<S>(
    links: DocsLinks,
    name: Seq<char>,
    sp: S,
    msg: Seq<char>,
    help: Seq<char>,
    sugg: Seq<char>,
    a: Applicability,
)
    ensures
        ({
            let d = sugg_diagnostic(links, name, sp, msg, help, sugg, a);
            &&& d.span == sp
            &&& d.msg == msg
            &&& d.notes.len() == if links.enabled { 2int } else { 1int }
            &&& d.notes[0] == NoteView::Suggestion(sp, help, sugg, a)
        }),
{
}

/// A lint message with a suggestion at the same place, and the
/// documentation note.
pub fn span_lint_and_sugg<S: Copy>(
    links: &DocsLinks,
    lint_name_lower: &str,
    sp: S,
    msg: &str,
    help: &str,
    sugg: String,
    applicability: Applicability,
) -> (d: Diagnostic<S>)
    requires
        links.ready(),
    ensures
        d@ == sugg_diagnostic(*links, lint_name_lower@, sp, msg@, help@, sugg@, applicability),
        d@.span == sp,
        d@.notes.len() >= 1,
        d@.notes[0] == NoteView::Suggestion(sp, help@, sugg@, applicability),
{
    let mut added: Vec<Note<S>> = Vec::new();
    added.push(Note::Suggestion(sp, help.to_owned(), sugg, applicability));
    assert(note_views(added@) =~= seq![NoteView::Suggestion(sp, help@, sugg@, applicability)]);
    span_lint_and_then(links, lint_name_lower, sp, msg, added)
}

} // verus!
