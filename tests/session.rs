use dialog_core::dialog::asset::{DialogAsset, DialogFile};
use dialog_core::dialog::{dialog_input, update_dialog_display, CurrentDialog, Dialog, DialogDisplay, Portrait};
use dialog_core::{launch_dialog, reset, AppState, ResetEvent};

fn two_line_file() -> DialogFile {
    DialogFile {
        lines: vec![
            (Portrait::AI, "Narrator".to_string(), "Hello".to_string()),
            (Portrait::Player, "Hero".to_string(), "Hi".to_string()),
        ],
    }
}

fn line_of(current: &CurrentDialog, content: Option<&DialogAsset>) -> Option<(Portrait, String, String)> {
    current
        .current_line(content)
        .map(|l| (l.portrait, l.speaker.clone(), l.text.clone()))
}

#[test]
fn parsed_file_keeps_every_line() {
    let content = DialogAsset::from_file(two_line_file());
    assert_eq!(content.len(), 2);
    let first = content.line(0).unwrap();
    assert_eq!((first.portrait, first.speaker.as_str(), first.text.as_str()), (Portrait::AI, "Narrator", "Hello"));
    let second = content.line(1).unwrap();
    assert_eq!((second.portrait, second.speaker.as_str(), second.text.as_str()), (Portrait::Player, "Hero", "Hi"));
    assert!(content.line(2).is_none());
}

#[test]
fn empty_file_gives_empty_content() {
    let content = DialogAsset::from_file(DialogFile { lines: vec![] });
    assert_eq!(content.len(), 0);
    assert!(content.line(0).is_none());
    assert_eq!(DialogAsset::default().len(), 0);
}

#[test]
fn round_trip_reads_each_line_then_nothing() {
    let content = DialogAsset::from_file(two_line_file());
    let mut current = CurrentDialog::default();
    current.set(Dialog::Plant);
    assert_eq!(line_of(&current, Some(&content)), Some((Portrait::AI, "Narrator".to_string(), "Hello".to_string())));
    assert!(!current.advance_line(Some(&content)));
    assert_eq!(line_of(&current, Some(&content)), Some((Portrait::Player, "Hero".to_string(), "Hi".to_string())));
    assert!(current.advance_line(Some(&content)));
    assert_eq!(line_of(&current, Some(&content)), None);
}

#[test]
fn two_line_dialog_runs_to_normal_mode() {
    let content = DialogAsset::from_file(two_line_file());
    let mut current = CurrentDialog::default();
    let mut next: Option<AppState> = None;
    launch_dialog(&mut current, &mut next, Dialog::Intro);
    assert_eq!(next, Some(AppState::InDialog));
    let mut display = DialogDisplay::new();
    update_dialog_display(&current, Some(&content), &mut display);
    assert_eq!((display.portrait, display.speaker.as_str(), display.text.as_str()), (Portrait::AI, "Narrator", "Hello"));

    let mut next: Option<AppState> = None;
    dialog_input(&mut current, &mut next, 1, Some(&content));
    assert_eq!(next, None);
    update_dialog_display(&current, Some(&content), &mut display);
    assert_eq!((display.portrait, display.speaker.as_str(), display.text.as_str()), (Portrait::Player, "Hero", "Hi"));

    dialog_input(&mut current, &mut next, 1, Some(&content));
    assert_eq!(next, Some(AppState::InGame));
}

#[test]
fn unloaded_content_shows_nothing_until_loaded() {
    let mut current = CurrentDialog::default();
    current.set(Dialog::Bear);
    let mut display = DialogDisplay::new();
    display.show(None);
    assert_eq!(line_of(&current, None), None);
    update_dialog_display(&current, None, &mut display);
    assert_eq!((display.portrait, display.speaker.as_str(), display.text.as_str()), (Portrait::Undefined, "", ""));

    let content = DialogAsset::from_file(two_line_file());
    update_dialog_display(&current, Some(&content), &mut display);
    assert_eq!((display.portrait, display.speaker.as_str(), display.text.as_str()), (Portrait::AI, "Narrator", "Hello"));
}

#[test]
fn display_keeps_last_line_when_lookup_misses() {
    let content = DialogAsset::from_file(two_line_file());
    let mut current = CurrentDialog::default();
    current.set(Dialog::Intro);
    let mut display = DialogDisplay::new();
    update_dialog_display(&current, Some(&content), &mut display);
    current.advance_line(Some(&content));
    current.advance_line(Some(&content));
    update_dialog_display(&current, Some(&content), &mut display);
    assert_eq!((display.portrait, display.speaker.as_str(), display.text.as_str()), (Portrait::AI, "Narrator", "Hello"));
}

#[test]
fn index_grows_by_one_per_advance_and_set_restarts() {
    let mut current = CurrentDialog::default();
    current.set(Dialog::Intro);
    assert_eq!(current.current_line_index(), 0);
    for n in 1..=5usize {
        current.advance_line(None);
        assert_eq!(current.current_line_index(), n);
    }
    current.set(Dialog::Bear);
    assert_eq!(current.dialog(), Dialog::Bear);
    assert_eq!(current.current_line_index(), 0);
}

#[test]
fn advance_while_idle_changes_nothing() {
    let mut current = CurrentDialog::default();
    assert_eq!(current.dialog(), Dialog::Undefined);
    assert!(current.advance_line(None));
    assert_eq!(current.current_line_index(), 0);
    let mut next: Option<AppState> = None;
    dialog_input(&mut current, &mut next, 2, None);
    assert_eq!(current.current_line_index(), 0);
    assert_eq!(next, Some(AppState::InGame));
}

#[test]
fn missing_content_is_exhausted_on_first_advance() {
    let mut current = CurrentDialog::default();
    current.set(Dialog::Plant);
    let mut next: Option<AppState> = Some(AppState::InDialog);
    dialog_input(&mut current, &mut next, 1, None);
    assert_eq!(current.current_line_index(), 1);
    assert_eq!(next, Some(AppState::InGame));
}

#[test]
fn no_press_keeps_session_and_mode() {
    let content = DialogAsset::from_file(two_line_file());
    let mut current = CurrentDialog::default();
    current.set(Dialog::Intro);
    let mut next: Option<AppState> = None;
    dialog_input(&mut current, &mut next, 0, Some(&content));
    assert_eq!(current.current_line_index(), 0);
    assert_eq!(next, None);
}

#[test]
fn several_presses_in_one_frame() {
    let content = DialogAsset::from_file(two_line_file());
    let mut current = CurrentDialog::default();
    current.set(Dialog::Intro);
    let mut next: Option<AppState> = None;
    dialog_input(&mut current, &mut next, 3, Some(&content));
    assert_eq!(current.current_line_index(), 3);
    assert_eq!(next, Some(AppState::InGame));
}

#[test]
fn reset_restarts_intro_and_broadcasts() {
    let mut current = CurrentDialog::default();
    current.set(Dialog::Bear);
    current.advance_line(None);
    let mut next: Option<AppState> = None;
    let mut events: Vec<ResetEvent> = Vec::new();
    reset(2, &mut current, &mut next, &mut events);
    assert_eq!(current.dialog(), Dialog::Intro);
    assert_eq!(current.current_line_index(), 0);
    assert_eq!(next, Some(AppState::InDialog));
    assert_eq!(events, vec![ResetEvent, ResetEvent]);
}

#[test]
fn reset_without_press_changes_nothing() {
    let mut current = CurrentDialog::default();
    current.set(Dialog::Bear);
    let mut next: Option<AppState> = None;
    let mut events: Vec<ResetEvent> = Vec::new();
    reset(0, &mut current, &mut next, &mut events);
    assert_eq!(current.dialog(), Dialog::Bear);
    assert_eq!(next, None);
    assert!(events.is_empty());
}

#[test]
fn default_mode_is_in_game() {
    assert_eq!(AppState::default(), AppState::InGame);
}
