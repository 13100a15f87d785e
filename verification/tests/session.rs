use bean_import::error::Error;
use bean_import::session::{advance, confirms, EditAction, EditEvent, EditState};

fn step(state: EditState, event: &EditEvent) -> Option<(EditState, EditAction)> {
    match advance(state, event) {
        Ok(step) => Some(step),
        Err(Error::Aborted) => None,
        Err(_) => panic!("another error than Aborted"),
    }
}

fn answered(answer: &str) -> EditEvent {
    EditEvent::Answered { answer: answer.to_owned() }
}

#[test]
fn clean_rules_go_straight_to_the_ledger() {
    assert_eq!(
        step(EditState::Start, &EditEvent::Merged { dirty: false }),
        Some((EditState::Done, EditAction::Render))
    );
}

#[test]
fn dirty_rules_are_edited_before_the_ledger() {
    let (state, action) = step(EditState::Start, &EditEvent::Merged { dirty: true }).unwrap();
    assert_eq!((state, action), (EditState::Prompting, EditAction::Prompt));
    let (state, action) = step(state, &answered("yes\n")).unwrap();
    assert_eq!((state, action), (EditState::Saving, EditAction::Save));
    let (state, action) = step(state, &EditEvent::Saved).unwrap();
    assert_eq!((state, action), (EditState::Editing, EditAction::OpenEditor));
    let (state, action) = step(state, &EditEvent::Edited).unwrap();
    assert_eq!((state, action), (EditState::Reloading, EditAction::Reload));
    let (state, action) = step(state, &EditEvent::Reloaded).unwrap();
    assert_eq!((state, action), (EditState::Done, EditAction::Render));
    assert_eq!(step(state, &EditEvent::Reloaded), None);
}

#[test]
fn any_other_answer_aborts() {
    for answer in ["no", "n", "", "Yes", "yes please", "\n", "yy"] {
        assert_eq!(
            step(EditState::Prompting, &answered(answer)),
            None
        );
        assert!(!confirms(answer));
    }
}

#[test]
fn yes_and_y_agree() {
    for answer in ["yes", "y", " y ", "yes\r\n", "\tyes"] {
        assert!(confirms(answer));
        assert_eq!(
            step(EditState::Prompting, &answered(answer)),
            Some((EditState::Saving, EditAction::Save))
        );
    }
}

#[test]
fn a_report_out_of_turn_aborts() {
    assert_eq!(step(EditState::Start, &EditEvent::Saved), None);
    assert_eq!(step(EditState::Start, &EditEvent::Reloaded), None);
    assert_eq!(step(EditState::Prompting, &EditEvent::Edited), None);
    assert_eq!(step(EditState::Saving, &answered("yes")), None);
    assert_eq!(step(EditState::Editing, &EditEvent::Saved), None);
    assert_eq!(
        step(EditState::Reloading, &EditEvent::Merged { dirty: false }),
        None
    );
    assert_eq!(step(EditState::Done, &EditEvent::Reloaded), None);
}
