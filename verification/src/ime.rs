//! IME composition state: the retained pre-edit string and caret, and the
//! guard that drops the keyboard-text echo some platforms send after a
//! commit.

use vstd::prelude::*;
use vstd::string::*;

use crate::bytes::push_all;
use crate::paste::opt_bytes;

verus! {

/// An input-method event.
pub enum ImeEvent {
    Enabled,
    Disabled,
    /// The composing string and the caret's byte range within it.
    Preedit(String, Option<(usize, usize)>),
    /// Composition finished with this text.
    Commit(String),
}

/// The mathematical state of an [`ImeState`].
pub struct ImeView {
    pub preedit: Seq<char>,
    pub cursor: Option<(usize, usize)>,
    pub pending_echo: Option<Seq<char>>,
}

/// The mathematical counterpart of an [`ImeEvent`].
pub enum ImeInput {
    Enabled,
    Disabled,
    Preedit(Seq<char>, Option<(usize, usize)>),
    Commit(Seq<char>),
}

impl ImeEvent {
    pub open spec fn input(&self) -> ImeInput {
        match self {
            ImeEvent::Enabled => ImeInput::Enabled,
            ImeEvent::Disabled => ImeInput::Disabled,
            ImeEvent::Preedit(t, c) => ImeInput::Preedit(t@, *c),
            ImeEvent::Commit(t) => ImeInput::Commit(t@),
        }
    }
}

/// The state after `event`: enabling or disabling drops the composition and
/// the echo guard; a pre-edit replaces the composition and, when non-empty,
/// drops the guard; a commit drops the composition and arms the guard with
/// the committed text (none for empty text).
pub open spec fn ime_next(v: ImeView, event: ImeInput) -> ImeView {
    match event {
        ImeInput::Enabled | ImeInput::Disabled => ImeView {
            preedit: Seq::empty(),
            cursor: None,
            pending_echo: None,
        },
        ImeInput::Preedit(t, c) => ImeView {
            preedit: t,
            cursor: c,
            pending_echo: if t.len() > 0 {
                None
            } else {
                v.pending_echo
            },
        },
        ImeInput::Commit(t) => ImeView {
            preedit: Seq::empty(),
            cursor: None,
            pending_echo: if t.len() > 0 {
                Some(t)
            } else {
                None
            },
        },
    }
}

/// The bytes `event` sends: the UTF-8 of committed non-empty text, nothing
/// otherwise.
pub open spec fn ime_output(event: ImeInput) -> Option<Seq<u8>> {
    match event {
        ImeInput::Commit(t) => if t.len() > 0 {
            Some(vstd::utf8::encode_utf8(t))
        } else {
            None
        },
        _ => None,
    }
}

/// Whether a keyboard-text echo is swallowed: it must equal the armed
/// commit text. Either way the guard is spent.
pub open spec fn echo_matches(v: ImeView, text: Option<Seq<char>>) -> bool {
    match (text, v.pending_echo) {
        (Some(t), Some(p)) => t == p,
        _ => false,
    }
}

/// The state after consuming an echo: the guard is spent whenever there was
/// text to compare.
pub open spec fn after_echo(v: ImeView, text: Option<Seq<char>>) -> ImeView {
    match text {
        Some(_) => ImeView { pending_echo: None, ..v },
        None => v,
    }
}

/// Tracks IME composition and encodes committed text for the pty.
pub struct ImeState {
    preedit: String,
    preedit_cursor: Option<(usize, usize)>,
    pending_commit_echo: Option<String>,
}

impl View for ImeState {
    type V = ImeView;

    closed spec fn view(&self) -> ImeView {
        ImeView {
            preedit: self.preedit@,
            cursor: self.preedit_cursor,
            pending_echo: match self.pending_commit_echo {
                Some(s) => Some(s@),
                None => None,
            },
        }
    }
}

impl ImeState {
    /// No composition and no armed echo guard.
    pub fn new() -> (s: ImeState)
        ensures
            s@ == (ImeView { preedit: Seq::empty(), cursor: None, pending_echo: None }),
    {
        ImeState { preedit: String::new(), preedit_cursor: None, pending_commit_echo: None }
    }

    /// Apply one IME event, returning the bytes to write to the pty.
    pub fn handle_event(&mut self, event: &ImeEvent) -> (res: Option<Vec<u8>>)
        ensures
            final(self)@ == ime_next(old(self)@, event.input()),
            opt_bytes(res) == ime_output(event.input()),
    {
        match event {
            ImeEvent::Enabled | ImeEvent::Disabled => {
                self.clear_preedit();
                self.pending_commit_echo = None;
                None
            },
            ImeEvent::Preedit(text, cursor_range) => {
                self.preedit = text.clone();
                self.preedit_cursor = *cursor_range;
                if text.as_str().unicode_len() > 0 {
                    self.pending_commit_echo = None;
                }
                None
            },
            ImeEvent::Commit(text) => {
                self.clear_preedit();
                let n = text.as_str().unicode_len();
                if n > 0 {
                    self.pending_commit_echo = Some(text.clone());
                    let mut out: Vec<u8> = Vec::new();
                    push_all(&mut out, text.as_str().as_bytes());
                    Some(out)
                } else {
                    self.pending_commit_echo = None;
                    None
                }
            },
        }
    }

    /// Whether a composition is in progress.
    pub fn preedit_active(&self) -> (res: bool)
        ensures
            res == (self@.preedit.len() > 0),
    {
        self.preedit.as_str().unicode_len() > 0
    }

    /// The current composing string (empty when not composing).
    pub fn preedit_text(&self) -> (res: &str)
        ensures
            res@ == self@.preedit,
    {
        self.preedit.as_str()
    }

    /// The composition caret's byte range within the pre-edit text.
    pub fn preedit_cursor(&self) -> (res: Option<(usize, usize)>)
        ensures
            res == self@.cursor,
    {
        self.preedit_cursor
    }

    /// Discard the composition without encoding it (focus loss).
    pub fn commit_preedit(&mut self)
        ensures
            final(self)@ == (ImeView { preedit: Seq::empty(), cursor: None, ..old(self)@ }),
    {
        self.clear_preedit();
    }

    /// Consume a keyboard-text echo of the last commit: `true` (swallow it)
    /// exactly when it equals the armed commit text. The guard is spent by
    /// any text.
    pub fn consume_commit_echo(&mut self, text: Option<&str>) -> (res: bool)
        ensures
            res == echo_matches(
                old(self)@,
                match text {
                    Some(t) => Some(t@),
                    None => None,
                },
            ),
            final(self)@ == after_echo(
                old(self)@,
                match text {
                    Some(t) => Some(t@),
                    None => None,
                },
            ),
    {
        let text = match text {
            Some(t) => t,
            None => {
                return false;
            },
        };
        let expected = match self.pending_commit_echo.take() {
            Some(e) => e,
            None => {
                return false;
            },
        };
        let owned = text.to_owned();
        owned == expected
    }

    fn clear_preedit(&mut self)
        ensures
            final(self)@ == (ImeView { preedit: Seq::empty(), cursor: None, ..old(self)@ }),
    {
        self.preedit = String::new();
        self.preedit_cursor = None;
    }
}

/// A commit's keyboard echo is swallowed exactly once: right after
/// committing non-empty text, an echo of that same text is consumed, and a
/// second identical echo is not.
pub proof fn lemma_commit_echo_swallowed_once(v: ImeView, text: Seq<char>)
    requires
        text.len() > 0,
    ensures
        echo_matches(ime_next(v, ImeInput::Commit(text)), Some(text)),
        !echo_matches(after_echo(ime_next(v, ImeInput::Commit(text)), Some(text)), Some(text)),
{
}

/// The empty pre-edit a platform sends to clear marked text after a commit
/// keeps the echo guard armed, while a new non-empty composition drops it.
pub proof fn lemma_empty_preedit_keeps_echo_guard(
    v: ImeView,
    text: Seq<char>,
    fresh: Seq<char>,
    cursor: Option<(usize, usize)>,
)
    requires
        text.len() > 0,
        fresh.len() > 0,
    ensures
        echo_matches(
            ime_next(ime_next(v, ImeInput::Commit(text)), ImeInput::Preedit(Seq::empty(), None)),
            Some(text),
        ),
        !echo_matches(
            ime_next(ime_next(v, ImeInput::Commit(text)), ImeInput::Preedit(fresh, cursor)),
            Some(text),
        ),
{
}

/// Every event but a pre-edit leaves no composition behind.
pub proof fn lemma_only_preedit_composes(v: ImeView, event: ImeInput)
    requires
        !(event is Preedit),
    ensures
        ime_next(v, event).preedit.len() == 0,
        ime_next(v, event).cursor is None,
{
}

} // verus!
