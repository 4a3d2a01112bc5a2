use norgdo::task::{KanbanCategory, TodoState};

const ALL: [TodoState; 8] = [
    TodoState::Done,
    TodoState::Pending,
    TodoState::Undone,
    TodoState::Uncertain,
    TodoState::OnHold,
    TodoState::Cancelled,
    TodoState::Recurring,
    TodoState::Urgent,
];

#[test]
fn decode_gives_back_every_encoded_state() {
    for state in ALL {
        assert_eq!(TodoState::from_norg_char(state.to_norg_char()), state);
        assert_eq!(TodoState::decode(state.to_norg_char()), state);
    }
}

#[test]
fn status_character_table() {
    assert_eq!(TodoState::Done.to_norg_char(), 'x');
    assert_eq!(TodoState::Pending.to_norg_char(), '-');
    assert_eq!(TodoState::Undone.to_norg_char(), ' ');
    assert_eq!(TodoState::Uncertain.to_norg_char(), '?');
    assert_eq!(TodoState::OnHold.to_norg_char(), '=');
    assert_eq!(TodoState::Cancelled.to_norg_char(), '_');
    assert_eq!(TodoState::Recurring.to_norg_char(), '+');
    assert_eq!(TodoState::Urgent.to_norg_char(), '!');
}

#[test]
fn every_state_has_its_own_character() {
    for (i, a) in ALL.iter().enumerate() {
        for (j, b) in ALL.iter().enumerate() {
            if i != j {
                assert_ne!(a.to_norg_char(), b.to_norg_char());
            }
        }
    }
}

#[test]
fn status_characters_decode_to_their_states() {
    assert_eq!(TodoState::from_norg_char('x'), TodoState::Done);
    assert_eq!(TodoState::from_norg_char('-'), TodoState::Pending);
    assert_eq!(TodoState::from_norg_char(' '), TodoState::Undone);
    assert_eq!(TodoState::from_norg_char('?'), TodoState::Uncertain);
    assert_eq!(TodoState::from_norg_char('='), TodoState::OnHold);
    assert_eq!(TodoState::from_norg_char('_'), TodoState::Cancelled);
    assert_eq!(TodoState::from_norg_char('+'), TodoState::Recurring);
    assert_eq!(TodoState::from_norg_char('!'), TodoState::Urgent);
}

#[test]
fn unknown_character_decodes_to_undone() {
    for c in ['z', 'a', 'X', '0', '*', '(', ')', '\n', '\u{e9}', '\u{1F600}'] {
        assert_eq!(TodoState::from_norg_char(c), TodoState::Undone);
        assert_eq!(TodoState::decode(c), TodoState::Undone);
    }
}

#[test]
fn decode_is_total_over_all_characters() {
    let table = ['x', '-', ' ', '?', '=', '_', '+', '!'];
    let mut other_than_undone = 0;
    for n in 0..=0x10FFFFu32 {
        if let Some(c) = char::from_u32(n) {
            let state = TodoState::from_norg_char(c);
            assert_eq!(TodoState::decode(c), state);
            if table.contains(&c) {
                assert_eq!(state.to_norg_char(), c);
            } else {
                assert_eq!(state, TodoState::Undone);
            }
            if state != TodoState::Undone {
                other_than_undone += 1;
            }
        }
    }
    assert_eq!(other_than_undone, 7);
}

#[test]
fn labels_of_states() {
    assert_eq!(TodoState::Done.to_string(), "Done");
    assert_eq!(TodoState::Pending.to_string(), "Pending");
    assert_eq!(TodoState::Undone.to_string(), "To Do");
    assert_eq!(TodoState::Uncertain.to_string(), "Uncertain");
    assert_eq!(TodoState::OnHold.to_string(), "On Hold");
    assert_eq!(TodoState::Cancelled.to_string(), "Cancelled");
    assert_eq!(TodoState::Recurring.to_string(), "Recurring");
    assert_eq!(TodoState::Urgent.to_string(), "Urgent");
}

#[test]
fn labels_of_categories() {
    assert_eq!(KanbanCategory::YetToBeDone.to_string(), "Yet to be Done");
    assert_eq!(KanbanCategory::InProgress.to_string(), "In Progress");
    assert_eq!(KanbanCategory::Completed.to_string(), "Completed");
}

#[test]
fn completed_and_in_progress_states() {
    for state in ALL {
        assert_eq!(
            state.is_completed(),
            state == TodoState::Done || state == TodoState::Cancelled
        );
        assert_eq!(
            state.is_in_progress(),
            state == TodoState::Pending || state == TodoState::Urgent
        );
    }
}

#[test]
fn toggling_cycles_through_the_common_states() {
    let first = TodoState::Undone.toggled();
    assert_eq!(first, TodoState::Pending);
    let second = first.toggled();
    assert_eq!(second, TodoState::Done);
    let third = second.toggled();
    assert_eq!(third, TodoState::Undone);
}

#[test]
fn toggling_the_other_states() {
    assert_eq!(TodoState::Urgent.toggled(), TodoState::Done);
    assert_eq!(TodoState::Uncertain.toggled(), TodoState::Pending);
    assert_eq!(TodoState::OnHold.toggled(), TodoState::Pending);
    assert_eq!(TodoState::Cancelled.toggled(), TodoState::Undone);
    assert_eq!(TodoState::Recurring.toggled(), TodoState::Done);
}
