//! Dialog and trigger core of a small 2D game: asset-keyed dialog content,
//! the dialog session state machine, fire-once story triggers and the
//! application mode that gates input and dialog visibility.
use vstd::prelude::*;

pub mod asset_enum;
pub mod dialog;
pub mod objects;
pub mod tilemap;

use crate::dialog::{CurrentDialog, Dialog};

verus! {

/// The application mode: normal play, or a dialog on screen. Movement input
/// runs only in `InGame`; the dialog box shows and takes input only in
/// `InDialog`.
#[derive(Debug, Clone, Copy, PartialEq, Eq, Hash, Structural)]
pub enum AppState {
    InGame,
    InDialog,
}

impl Default for AppState {
    fn default() -> (r: AppState)
        ensures
            r == AppState::InGame,
    {
        AppState::InGame
    }
}

/// A reset request, broadcast so that every trigger is re-armed.
#[derive(Debug, Clone, Copy, PartialEq, Eq, Structural)]
pub struct ResetEvent;

/// Starts `dialog` and asks for the dialog mode: the explicit launch used at
/// start-up and on a reset.
pub fn launch_dialog(current: &mut CurrentDialog, next_state: &mut Option<AppState>, dialog: Dialog)
    ensures
        final(current)@ == (dialog, 0nat),
        *final(next_state) == Some(AppState::InDialog),
{
    current.set(dialog);
    *next_state = Some(AppState::InDialog);
}

/// The reset pass of one frame: each reset press starts the intro again, asks
/// for the dialog mode and broadcasts one reset event.
pub fn reset(
    presses: usize,
    current: &mut CurrentDialog,
    next_state: &mut Option<AppState>,
    events: &mut Vec<ResetEvent>,
)
    ensures
        final(current)@ == if presses > 0 {
            (Dialog::Intro, 0nat)
        } else {
            old(current)@
        },
        *final(next_state) == if presses > 0 {
            Some(AppState::InDialog)
        } else {
            *old(next_state)
        },
        final(events)@ == old(events)@ + Seq::new(presses as nat, |i: int| ResetEvent),
{
    let mut k: usize = 0;
    while k < presses
        invariant
            k <= presses,
            current@ == if k > 0 {
                (Dialog::Intro, 0nat)
            } else {
                old(current)@
            },
            *next_state == if k > 0 {
                Some(AppState::InDialog)
            } else {
                *old(next_state)
            },
            events@ == old(events)@ + Seq::new(k as nat, |i: int| ResetEvent),
        decreases presses - k,
    {
        launch_dialog(current, next_state, Dialog::Intro);
        events.push(ResetEvent);
        k = k + 1;
        assert(events@ =~= old(events)@ + Seq::new(k as nat, |i: int| ResetEvent));
    }
}

} // verus!
