//! Dialog content, the dialog session and what the dialog box displays.
use vstd::prelude::*;

pub mod asset;
pub mod dialogs;
pub mod portrait;

pub use crate::dialog::dialogs::Dialog;
pub use crate::dialog::portrait::Portrait;

use crate::dialog::asset::{DialogAsset, DialogFile, DialogLine, LineView, line_at};
use crate::AppState;

verus! {

/// The content a lookup found, as lines; `None` while it is not loaded.
pub open spec fn content_view(content: Option<&DialogAsset>) -> Option<Seq<LineView>> {
    match content {
        Some(c) => Some(c@),
        None => None,
    }
}

/// Number of lines of the content; missing content counts as empty.
pub open spec fn content_len(content: Option<Seq<LineView>>) -> nat {
    match content {
        Some(c) => c.len(),
        None => 0,
    }
}

/// A session is idle while no dialog is selected.
pub open spec fn is_idle(session: (Dialog, nat)) -> bool {
    session.0 == Dialog::Undefined
}

/// The line a session shows: none while idle, while the content is missing,
/// or once the index is past the end.
pub open spec fn session_line(session: (Dialog, nat), content: Option<Seq<LineView>>) -> Option<
    LineView,
> {
    if is_idle(session) {
        None
    } else {
        match content {
            Some(c) => line_at(c, session.1 as int),
            None => None,
        }
    }
}

/// The session after `n` advances: the index moves by `n`, unless idle.
pub open spec fn advanced_by(session: (Dialog, nat), n: nat) -> (Dialog, nat) {
    if is_idle(session) {
        session
    } else {
        (session.0, session.1 + n)
    }
}

/// A session is exhausted when it is idle or its index has reached the
/// number of lines of its content.
pub open spec fn is_exhausted(session: (Dialog, nat), content: Option<Seq<LineView>>) -> bool {
    is_idle(session) || session.1 >= content_len(content)
}

/// The dialog session: which dialog is current and which of its lines is
/// displayed.
#[derive(Debug)]
pub struct CurrentDialog {
    dialog: Dialog,
    current_line: usize,
}

impl View for CurrentDialog {
    type V = (Dialog, nat);

    closed spec fn view(&self) -> (Dialog, nat) {
        (self.dialog, self.current_line as nat)
    }
}

impl Default for CurrentDialog {
    fn default() -> (r: CurrentDialog)
        ensures
            r@ == (Dialog::Undefined, 0nat),
    {
        CurrentDialog { dialog: Dialog::Undefined, current_line: 0 }
    }
}

impl CurrentDialog {
    /// The selected dialog.
    pub fn dialog(&self) -> (r: Dialog)
        ensures
            r == self@.0,
    {
        self.dialog
    }

    /// Index of the displayed line.
    pub fn current_line_index(&self) -> (r: usize)
        ensures
            r == self@.1,
    {
        self.current_line
    }

    /// Starts `dialog` at its first line, discarding any session in progress.
    pub fn set(&mut self, dialog: Dialog)
        ensures
            final(self)@ == (dialog, 0nat),
    {
        self.dialog = dialog;
        self.current_line = 0;
    }

    /// Moves to the next line; while idle nothing changes. Returns whether
    /// the session is now exhausted, that is whether the dialog is over.
    pub fn advance_line(&mut self, content: Option<&DialogAsset>) -> (exhausted: bool)
        requires
            old(self)@.1 < usize::MAX,
        ensures
            final(self)@ == advanced_by(old(self)@, 1),
            exhausted == is_exhausted(final(self)@, content_view(content)),
    {
        if self.dialog == Dialog::Undefined {
            return true;
        }
        self.current_line = self.current_line + 1;
        match content {
            Some(c) => self.current_line >= c.len(),
            None => true,
        }
    }

    /// The line to display, read from the content found for the current
    /// dialog; `None` when there is nothing to show.
    pub fn current_line<'a>(&self, content: Option<&'a DialogAsset>) -> (r: Option<&'a DialogLine>)
        ensures
            r is Some ==> session_line(self@, content_view(content)) == Some(r->0@),
            r is None ==> session_line(self@, content_view(content)) is None,
    {
        if self.dialog == Dialog::Undefined {
            return None;
        }
        match content {
            Some(c) => c.line(self.current_line),
            None => None,
        }
    }
}

/// Handles the advance presses of one frame: each one moves the session a
/// line on, and once the dialog is over the mode is sent back to `InGame`.
/// `next_state` is the mode requested for the end of the frame.
pub fn dialog_input(
    current: &mut CurrentDialog,
    next_state: &mut Option<AppState>,
    presses: usize,
    content: Option<&DialogAsset>,
)
    requires
        old(current)@.1 + presses <= usize::MAX,
    ensures
        final(current)@ == advanced_by(old(current)@, presses as nat),
        *final(next_state) == if presses > 0 && is_exhausted(
            final(current)@,
            content_view(content),
        ) {
            Some(AppState::InGame)
        } else {
            *old(next_state)
        },
{
    let mut i: usize = 0;
    while i < presses
        invariant
            i <= presses,
            current@ == advanced_by(old(current)@, i as nat),
            old(current)@.1 + presses <= usize::MAX,
            *next_state == if i > 0 && is_exhausted(current@, content_view(content)) {
                Some(AppState::InGame)
            } else {
                *old(next_state)
            },
        decreases presses - i,
    {
        let exhausted = current.advance_line(content);
        if exhausted {
            *next_state = Some(AppState::InGame);
        }
        i = i + 1;
    }
}

/// What the dialog box shows: the portrait, the speaker and the text of the
/// last line that was found.
#[derive(Debug)]
pub struct DialogDisplay {
    pub portrait: Portrait,
    pub speaker: String,
    pub text: String,
}

impl View for DialogDisplay {
    type V = LineView;

    open spec fn view(&self) -> LineView {
        (self.portrait, self.speaker@, self.text@)
    }
}

impl DialogDisplay {
    /// An empty dialog box.
    pub fn new() -> (r: DialogDisplay)
        ensures
            r@ == (Portrait::Undefined, Seq::<char>::empty(), Seq::<char>::empty()),
    {
        DialogDisplay { portrait: Portrait::Undefined, speaker: String::new(), text: String::new() }
    }

    /// Shows `line`; with no line the previous content stays on screen.
    pub fn show(&mut self, line: Option<&DialogLine>)
        ensures
            final(self)@ == match line {
                Some(l) => l@,
                None => old(self)@,
            },
    {
        match line {
            Some(l) => {
                self.portrait = l.portrait;
                self.speaker = l.speaker.clone();
                self.text = l.text.clone();
            },
            None => {},
        }
    }
}

/// Refreshes the dialog box from the session: the current line when there is
/// one, else the box keeps what it showed.
pub fn update_dialog_display(
    current: &CurrentDialog,
    content: Option<&DialogAsset>,
    display: &mut DialogDisplay,
)
    ensures
        final(display)@ == match session_line(current@, content_view(content)) {
            Some(v) => v,
            None => old(display)@,
        },
{
    let line = current.current_line(content);
    display.show(line);
}

/// After `set(d)` for a dialog `d`, every advance moves the index on by
/// exactly one: after `n` advances it is `n`, and it never goes back.
pub proof fn lemma_index_counts_advances(d: Dialog, n: nat)
    requires
        d != Dialog::Undefined,
    ensures
        advanced_by((d, 0nat), n) == (d, n),
        advanced_by(advanced_by((d, 0nat), n), 1) == (d, n + 1),
{
}

/// Round trip: with the content built from a file of `N` lines, a session on
/// a dialog shows line `i` of the file unchanged after `i` advances, for each
/// `i < N`, and shows nothing after `N`.
pub proof fn lemma_round_trip(file: DialogFile, content: DialogAsset, d: Dialog)
    requires
        content@ == file@,
        d != Dialog::Undefined,
    ensures
        forall|i: nat|
            i < file@.len() ==> #[trigger] session_line(advanced_by((d, 0nat), i), content_view(Some(&content)))
                == Some(file@[i as int]),
        session_line(advanced_by((d, 0nat), file@.len()), content_view(Some(&content))) is None,
{
}
} // verus!
