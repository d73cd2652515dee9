//! The editor's state machine: one state record and a total, message-driven
//! transition function. Each message mutates the state atomically and may
//! emit one asynchronous request for the host to perform; the host answers
//! every request with exactly one follow-up message.

use vstd::prelude::*;
use crate::document::{
    apply_spec, empty_doc_view, join_lines, replace_all_spec, Action, DocView, Document,
};
use crate::gateway::{path_view, Error, Request};
use crate::highlight::Theme;

verus! {

/// An event consumed by the state machine: a user-driven action or the
/// result of a completed asynchronous request.
#[derive(Debug, PartialEq)]
pub enum Message {
    /// Apply one editing or movement action to the document.
    Edit(Action),
    /// Start an unsaved empty document.
    New,
    /// Ask the host to pick and load a file.
    Open,
    /// A load finished: the path and the content, or why it failed.
    FileOpened(Result<(String, String), Error>),
    /// Ask the host to save the current text under the current path.
    Save,
    /// A save finished: the path written to, or why it failed.
    FileSaved(Result<String, Error>),
    /// Switch the highlighting theme.
    ThemeSelected(Theme),
}

/// The mathematical value of an [`EditorState`].
#[verifier::ext_equal]
pub ghost struct StateView {
    pub path: Option<Seq<char>>,
    pub doc: DocView,
    pub dirty: bool,
    pub theme: Theme,
    pub error: Option<Error>,
}

impl StateView {
    /// Well-formedness: the document is well formed.
    pub open spec fn wf(self) -> bool {
        self.doc.wf()
    }
}

/// The editor's whole mutable state: the file path (absent for an unsaved
/// new document), the document, the dirty flag, the theme, and the last
/// operation's failure, if any.
pub struct EditorState {
    pub path: Option<String>,
    pub content: Document,
    pub dirty: bool,
    pub theme: Theme,
    pub error: Option<Error>,
}

impl View for EditorState {
    type V = StateView;

    open spec fn view(&self) -> StateView {
        StateView {
            path: path_view(self.path),
            doc: self.content@,
            dirty: self.dirty,
            theme: self.theme,
            error: self.error,
        }
    }
}

/// How one message transforms the state and which request it emits.
///
/// - `Edit(a)`: the error is cleared, the document changes by `a`, and the
///   state becomes dirty if `a` can change content.
/// - `New`: the path is cleared and the document reset to empty; dirty.
/// - `Open`: the state is untouched; a pick-and-load request goes out.
/// - `FileOpened(Ok)`: path and content are taken over; clean.
/// - `FileOpened(Err)` and `FileSaved(Err)`: only the error is recorded.
/// - `Save`: the state is untouched; a save request carries the current
///   path and the serialized text.
/// - `FileSaved(Ok)`: the written path is taken over; clean.
/// - `ThemeSelected(t)`: only the theme changes.
pub open spec fn update_rel(
    pre: StateView,
    m: Message,
    post: StateView,
    req: Option<Request>,
) -> bool {
    match m {
        Message::Edit(a) => {
            &&& post == StateView {
                doc: apply_spec(pre.doc, a),
                dirty: pre.dirty || a.is_edit_spec(),
                error: None,
                ..pre
            }
            &&& req is None
        },
        Message::New => {
            &&& post == StateView { path: None, doc: empty_doc_view(), dirty: true, ..pre }
            &&& req is None
        },
        Message::Open => {
            &&& post == pre
            &&& req == Some(Request::PickAndLoad)
        },
        Message::FileOpened(res) => match res {
            Ok((p, text)) => {
                &&& post == StateView {
                    path: Some(p@),
                    doc: replace_all_spec(text@),
                    dirty: false,
                    ..pre
                }
                &&& req is None
            },
            Err(e) => {
                &&& post == StateView { error: Some(e), ..pre }
                &&& req is None
            },
        },
        Message::Save => {
            &&& post == pre
            &&& match req {
                Some(Request::Save { path, text }) => {
                    &&& path_view(path) == pre.path
                    &&& text@ == join_lines(pre.doc.lines)
                },
                _ => false,
            }
        },
        Message::FileSaved(res) => match res {
            Ok(p) => {
                &&& post == StateView { path: Some(p@), dirty: false, ..pre }
                &&& req is None
            },
            Err(e) => {
                &&& post == StateView { error: Some(e), ..pre }
                &&& req is None
            },
        },
        Message::ThemeSelected(t) => {
            &&& post == StateView { theme: t, ..pre }
            &&& req is None
        },
    }
}

/// The path of the file loaded at startup.
pub open spec fn default_file_spec() -> Seq<char> {
    "src/main.rs"@
}

/// Executable twin of [`default_file_spec`]: where the startup load looks,
/// relative to the working directory.
pub fn default_file() -> (r: String)
    ensures
        r@ == default_file_spec(),
{
    String::from_str("src/main.rs")
}

/// The window title.
pub fn title() -> (r: String)
    ensures
        r@ == "A cool editor!"@,
{
    String::from_str("A cool editor!")
}

/// A copy of an optional path with the same characters.
fn clone_opt_string(p: &Option<String>) -> (r: Option<String>)
    ensures
        path_view(r) == path_view(*p),
{
    match p {
        Some(s) => Some(s.clone()),
        None => None,
    }
}

impl EditorState {
    /// The state at startup: an empty unsaved document with no user
    /// edits yet, so clean, under the dark default theme; the returned
    /// request asks the host to load the default file.
    pub fn new() -> (r: (EditorState, Request))
        ensures
            r.0@.wf(),
            r.0@ == (StateView {
                path: None,
                doc: empty_doc_view(),
                dirty: false,
                theme: Theme::SolarizedDark,
                error: None,
            }),
            (match r.1 {
                Request::Load { path } => path@ == default_file_spec(),
                _ => false,
            }),
    {
        let state = EditorState {
            path: None,
            content: Document::new(),
            dirty: false,
            theme: Theme::SolarizedDark,
            error: None,
        };
        let req = Request::Load { path: default_file() };
        (state, req)
    }

    /// Apply one message: the total transition function. The returned
    /// request, if any, is what the host must perform next.
    pub fn update(&mut self, message: Message) -> (req: Option<Request>)
        requires
            old(self)@.wf(),
        ensures
            final(self)@.wf(),
            update_rel(old(self)@, message, final(self)@, req),
    {
        match message {
            Message::Edit(a) => {
                self.dirty = self.dirty || a.is_edit();
                self.error = None;
                self.content.apply(a);
                None
            },
            Message::New => {
                self.dirty = true;
                self.path = None;
                self.content = Document::new();
                None
            },
            Message::Open => Some(Request::PickAndLoad),
            Message::FileOpened(res) => match res {
                Ok((p, text)) => {
                    self.dirty = false;
                    self.path = Some(p);
                    self.content.replace_all(text.as_str());
                    None
                },
                Err(e) => {
                    self.error = Some(e);
                    None
                },
            },
            Message::Save => {
                let text = self.content.text();
                let path = clone_opt_string(&self.path);
                Some(Request::Save { path, text })
            },
            Message::FileSaved(res) => match res {
                Ok(p) => {
                    self.path = Some(p);
                    self.dirty = false;
                    None
                },
                Err(e) => {
                    self.error = Some(e);
                    None
                },
            },
            Message::ThemeSelected(t) => {
                self.theme = t;
                None
            },
        }
    }

    /// What the status bar shows: the last I/O failure if one is stored,
    /// else the document's path, else a fixed marker for a new file.
    pub fn status_text(&self) -> (r: String)
        ensures
            r@ == status_spec(self@),
    {
        match &self.error {
            Some(Error::Io(k)) => String::from_str(k.describe()),
            _ => match &self.path {
                Some(p) => p.clone(),
                None => String::from_str("New file"),
            },
        }
    }
}

/// What the status bar shows, as a function of the state.
pub open spec fn status_spec(s: StateView) -> Seq<char> {
    match s.error {
        Some(Error::Io(k)) => k.describe_spec(),
        _ => match s.path {
            Some(p) => p,
            None => "New file"@,
        },
    }
}

/// A content-changing edit always leaves the state dirty, whatever it
/// held before.
pub proof fn lemma_edit_sets_dirty(
    pre: StateView,
    a: Action,
    post: StateView,
    req: Option<Request>,
)
    requires
        update_rel(pre, Message::Edit(a), post, req),
        a.is_edit_spec(),
    ensures
        post.dirty,
{
}

/// A successful open or a successful save always leaves the state clean.
pub proof fn lemma_success_clears_dirty(
    pre: StateView,
    m: Message,
    post: StateView,
    req: Option<Request>,
)
    requires
        update_rel(pre, m, post, req),
        match m {
            Message::FileOpened(res) => res is Ok,
            Message::FileSaved(res) => res is Ok,
            _ => false,
        },
    ensures
        !post.dirty,
{
}

} // verus!
