use norgdo::task::{KanbanCategory, Task, TodoItem, TodoState};

fn item(text: &str, state: TodoState) -> TodoItem {
    TodoItem { id: String::new(), text: text.to_string(), state, level: 0, line_number: 0 }
}

fn task_with(states: &[TodoState]) -> Task {
    let mut task = Task::new("t".to_string(), "t.norg".to_string());
    task.todos = states.iter().map(|s| item("x", *s)).collect();
    task
}

#[test]
fn new_task_is_empty() {
    let task = Task::new("Plan".to_string(), "/data/Plan.norg".to_string());
    assert_eq!(task.title, "Plan");
    assert_eq!(task.file_path, "/data/Plan.norg");
    assert_eq!(task.description, "");
    assert!(task.todos.is_empty());
    assert!(task.relations.is_empty());
    assert_eq!(task.due_date, None);
    assert_eq!(task.created_at, task.updated_at);
}

#[test]
fn task_with_a_given_identifier_and_time() {
    let now = norgdo::task::Timestamp { secs: 1_700_000_000, nanos: 42 };
    let task = Task::with_id(
        "Plan".to_string(),
        "/data/Plan.norg".to_string(),
        "id-1".to_string(),
        now,
    );
    assert_eq!(task.id, "id-1");
    assert_eq!(task.title, "Plan");
    assert_eq!(task.file_path, "/data/Plan.norg");
    assert_eq!(task.description, "");
    assert!(task.todos.is_empty());
    assert!(task.relations.is_empty());
    assert_eq!(task.due_date, None);
    assert_eq!(task.created_at, now);
    assert_eq!(task.updated_at, now);
}

#[test]
fn new_tasks_get_fresh_identifiers() {
    let a = Task::new("a".to_string(), "a.norg".to_string());
    let b = Task::new("a".to_string(), "a.norg".to_string());
    assert_eq!(a.id.chars().count(), 36);
    assert_eq!(b.id.chars().count(), 36);
    assert_ne!(a.id, b.id);
    assert_ne!(a.id, a.title);
    assert_eq!(a.id.matches('-').count(), 4);
}

#[test]
fn new_task_is_created_now() {
    let task = Task::new("a".to_string(), "a.norg".to_string());
    // after the year 2020, and the nanoseconds within two seconds
    assert!(task.created_at.secs > 1_577_836_800);
    assert!(task.created_at.nanos < 2_000_000_000);
}

#[test]
fn empty_task_is_complete_and_yet_to_be_done() {
    let task = task_with(&[]);
    assert_eq!(task.completion_percent(), 100);
    assert_eq!(task.completed_count(), 0);
    assert_eq!(task.kanban_category(), KanbanCategory::YetToBeDone);
    let percentage: f64 = if task.todos.is_empty() {
        100.0
    } else {
        task.completed_count() as f64 / task.todos.len() as f64 * 100.0
    };
    assert_eq!(percentage, 100.0);
}

#[test]
fn completion_percent_rounds_down() {
    let task = task_with(&[TodoState::Done, TodoState::Undone, TodoState::Pending]);
    assert_eq!(task.completed_count(), 1);
    assert_eq!(task.completion_percent(), 33);
    let task = task_with(&[TodoState::Done, TodoState::Cancelled, TodoState::Pending]);
    assert_eq!(task.completed_count(), 2);
    assert_eq!(task.completion_percent(), 66);
    let task = task_with(&[TodoState::Done, TodoState::Cancelled]);
    assert_eq!(task.completion_percent(), 100);
    let task = task_with(&[TodoState::Urgent, TodoState::Recurring]);
    assert_eq!(task.completion_percent(), 0);
}

#[test]
fn todo_counts_count_every_state() {
    let task = task_with(&[
        TodoState::Done,
        TodoState::Done,
        TodoState::Pending,
        TodoState::Uncertain,
        TodoState::OnHold,
        TodoState::OnHold,
        TodoState::OnHold,
        TodoState::Recurring,
    ]);
    let counts = task.todo_counts();
    assert_eq!(counts.get(&TodoState::Done), 2);
    assert_eq!(counts.get(&TodoState::Pending), 1);
    assert_eq!(counts.get(&TodoState::Undone), 0);
    assert_eq!(counts.get(&TodoState::Uncertain), 1);
    assert_eq!(counts.get(&TodoState::OnHold), 3);
    assert_eq!(counts.get(&TodoState::Cancelled), 0);
    assert_eq!(counts.get(&TodoState::Recurring), 1);
    assert_eq!(counts.get(&TodoState::Urgent), 0);
}

#[test]
fn category_completed_when_all_done_or_cancelled() {
    assert_eq!(
        task_with(&[TodoState::Done, TodoState::Cancelled]).kanban_category(),
        KanbanCategory::Completed
    );
    assert_eq!(task_with(&[TodoState::Cancelled]).kanban_category(), KanbanCategory::Completed);
}

#[test]
fn category_in_progress() {
    assert_eq!(
        task_with(&[TodoState::Done, TodoState::Undone]).kanban_category(),
        KanbanCategory::InProgress
    );
    assert_eq!(
        task_with(&[TodoState::Pending, TodoState::Undone]).kanban_category(),
        KanbanCategory::InProgress
    );
    assert_eq!(
        task_with(&[TodoState::Urgent]).kanban_category(),
        KanbanCategory::InProgress
    );
}

#[test]
fn category_yet_to_be_done() {
    assert_eq!(
        task_with(&[TodoState::Undone, TodoState::Uncertain, TodoState::OnHold, TodoState::Recurring])
            .kanban_category(),
        KanbanCategory::YetToBeDone
    );
}

#[test]
fn category_does_not_depend_on_the_order_of_the_todos() {
    let a = task_with(&[TodoState::Done, TodoState::Undone, TodoState::Pending]);
    let b = task_with(&[TodoState::Pending, TodoState::Done, TodoState::Undone]);
    assert_eq!(a.kanban_category(), b.kanban_category());
}

#[test]
fn changing_a_state_and_changing_it_back_keeps_the_category() {
    let mut task = task_with(&[TodoState::Undone, TodoState::Undone]);
    let before = task.kanban_category();
    task.todos[1].state = TodoState::Done;
    assert_eq!(task.kanban_category(), KanbanCategory::InProgress);
    task.todos[1].state = TodoState::Undone;
    assert_eq!(task.kanban_category(), before);
}
