use norgdo::grammar::Nesting;
use norgdo::parser::NorgParser;
use norgdo::task::{KanbanCategory, Task, TodoItem, TodoState};

fn triples(task: &Task) -> Vec<(String, TodoState, usize)> {
    task.todos.iter().map(|t| (t.text.clone(), t.state, t.level)).collect()
}

fn todo(text: &str, state: TodoState, level: usize) -> TodoItem {
    TodoItem { id: String::new(), text: text.to_string(), state, level, line_number: 0 }
}

#[test]
fn groceries_document() {
    let text = "* Buy groceries\n\nWeekly shop\n\n- ( ) milk\n- (x) eggs\n";
    let task = NorgParser::parse_task_file("/data/groceries.norg", text);
    assert_eq!(task.title, "Buy groceries");
    assert_eq!(task.description, "Weekly shop");
    assert_eq!(
        triples(&task),
        vec![
            ("milk".to_string(), TodoState::Undone, 0),
            ("eggs".to_string(), TodoState::Done, 0)
        ]
    );
    assert_eq!(task.kanban_category(), KanbanCategory::InProgress);
    assert_eq!(task.file_path, "/data/groceries.norg");
    assert_eq!(task.todos[0].id, "todo_0");
    assert_eq!(task.todos[1].id, "todo_1");
    assert_eq!(task.todos[0].line_number, 5);
    assert_eq!(task.todos[1].line_number, 6);
    assert!(task.relations.is_empty());
    assert_eq!(task.due_date, None);
}

#[test]
fn document_without_heading_gets_the_placeholder_title() {
    let task = NorgParser::parse_task_file("a.norg", "just some notes\n- (-) call");
    assert_eq!(task.title, "Untitled Task");
    assert_eq!(task.description, "just some notes");
    assert_eq!(triples(&task), vec![("call".to_string(), TodoState::Pending, 0)]);
}

#[test]
fn empty_document() {
    let task = NorgParser::parse_task_file("a.norg", "");
    assert_eq!(task.title, "Untitled Task");
    assert_eq!(task.description, "");
    assert!(task.todos.is_empty());
}

#[test]
fn heading_without_text_gives_no_title() {
    let task = NorgParser::parse_task_file("a.norg", "*\n*   \n** Real\nbody");
    assert_eq!(task.title, "Real");
    assert_eq!(task.description, "*\n*   \n\u{0}body".replace("\u{0}", ""));
}

#[test]
fn star_without_space_is_no_heading() {
    let task = NorgParser::parse_task_file("a.norg", "*bold* words\n* Title");
    assert_eq!(task.title, "Title");
    assert_eq!(task.description, "*bold* words");
}

#[test]
fn later_headings_join_the_description() {
    let task = NorgParser::parse_task_file("a.norg", "* One\nfirst\n** Two\nsecond\n- (x) a");
    assert_eq!(task.title, "One");
    assert_eq!(task.description, "first\n** Two\nsecond");
}

#[test]
fn lines_after_the_first_todo_are_dropped() {
    let text = "* T\nintro\n- ( ) a\nlost words\n\n- (!) b\nmore lost\n";
    let task = NorgParser::parse_task_file("a.norg", text);
    assert_eq!(task.description, "intro");
    assert_eq!(
        triples(&task),
        vec![("a".to_string(), TodoState::Undone, 0), ("b".to_string(), TodoState::Urgent, 0)]
    );
}

#[test]
fn heading_after_the_todos_still_gives_the_title() {
    let task = NorgParser::parse_task_file("a.norg", "notes\n- ( ) a\n* Late");
    assert_eq!(task.title, "Late");
    assert_eq!(task.description, "notes");
}

#[test]
fn description_keeps_inner_blank_lines_and_loses_outer_whitespace() {
    let task = NorgParser::parse_task_file("a.norg", "* T\n\n\n  one\n\n two  \n\n\n- (x) a");
    assert_eq!(task.description, "one\n\n two");
}

#[test]
fn every_status_character_is_read() {
    let text = "- (x) a\n- (-) b\n- ( ) c\n- (?) d\n- (=) e\n- (_) f\n- (+) g\n- (!) h\n- (z) i";
    let task = NorgParser::parse_task_file("a.norg", text);
    let states: Vec<TodoState> = task.todos.iter().map(|t| t.state).collect();
    assert_eq!(
        states,
        vec![
            TodoState::Done,
            TodoState::Pending,
            TodoState::Undone,
            TodoState::Uncertain,
            TodoState::OnHold,
            TodoState::Cancelled,
            TodoState::Recurring,
            TodoState::Urgent,
            TodoState::Undone,
        ]
    );
}

#[test]
fn lines_that_only_look_like_todos() {
    let text = "- plain item\n- (xx) two characters\n( ) no dash\n- () none\n-- (x real";
    let task = NorgParser::parse_task_file("a.norg", text);
    assert!(task.todos.is_empty());
    assert_eq!(task.description, text);
}

#[test]
fn todo_text_is_trimmed_and_may_be_empty() {
    let task = NorgParser::parse_task_file("a.norg", "-(x)   spaced out  \n- (-)");
    assert_eq!(
        triples(&task),
        vec![("spaced out".to_string(), TodoState::Done, 0), ("".to_string(), TodoState::Pending, 0)]
    );
}

#[test]
fn depth_by_indentation() {
    let text = "- ( ) a\n  - ( ) b\n    -- ( ) c\n   - ( ) d\n\t- ( ) e";
    let task = NorgParser::parse_task_file_with("a.norg", text, Nesting::Indentation);
    let levels: Vec<usize> = task.todos.iter().map(|t| t.level).collect();
    assert_eq!(levels, vec![0, 1, 2, 1, 0]);
}

#[test]
fn depth_by_dashes() {
    let text = "- ( ) a\n-- ( ) b\n    --- ( ) c";
    let task = NorgParser::parse_task_file_with("a.norg", text, Nesting::PrefixCount);
    let levels: Vec<usize> = task.todos.iter().map(|t| t.level).collect();
    assert_eq!(levels, vec![1, 2, 3]);
}

#[test]
fn carriage_returns_are_whitespace() {
    let task = NorgParser::parse_task_file("a.norg", "* T\r\n\r\nbody\r\n- (x) a\r\n");
    assert_eq!(task.title, "T");
    assert_eq!(task.description, "body");
    assert_eq!(triples(&task), vec![("a".to_string(), TodoState::Done, 0)]);
}

#[test]
fn written_text_of_a_task() {
    let mut task = Task::new("Buy groceries".to_string(), "g.norg".to_string());
    task.description = "Weekly shop".to_string();
    task.todos = vec![
        todo("milk", TodoState::Undone, 0),
        todo("eggs", TodoState::Done, 1),
        todo("bread", TodoState::Urgent, 2),
    ];
    assert_eq!(
        NorgParser::write_task_file(&task),
        "* Buy groceries\n\nWeekly shop\n\n- ( ) milk\n  - (x) eggs\n    - (!) bread\n"
    );
    assert_eq!(
        NorgParser::write_task_file_with(&task, Nesting::PrefixCount),
        "* Buy groceries\n\nWeekly shop\n\n- ( ) milk\n- (x) eggs\n-- (!) bread\n"
    );
}

#[test]
fn written_text_without_description_and_todos() {
    let task = Task::new("Alone".to_string(), "a.norg".to_string());
    assert_eq!(NorgParser::write_task_file(&task), "* Alone\n\n");
    assert_eq!(
        NorgParser::write_document("T", "", &vec![todo("a", TodoState::Cancelled, 0)], Nesting::Indentation),
        "* T\n\n- (_) a\n"
    );
}

fn assert_round_trip(text: &str, nesting: Nesting) {
    let first = NorgParser::parse_task_file_with("a.norg", text, nesting);
    let written = NorgParser::write_task_file_with(&first, nesting);
    let second = NorgParser::parse_task_file_with("a.norg", &written, nesting);
    assert_eq!(second.title, first.title);
    assert_eq!(second.description, first.description);
    assert_eq!(triples(&second), triples(&first));
    let ids_first: Vec<String> = first.todos.iter().map(|t| t.id.clone()).collect();
    let ids_second: Vec<String> = second.todos.iter().map(|t| t.id.clone()).collect();
    assert_eq!(ids_second, ids_first);
    // the canonical text is stable
    assert_eq!(NorgParser::write_task_file_with(&second, nesting), written);
}

#[test]
fn round_trip_of_sample_documents() {
    let samples = [
        "* Buy groceries\n\nWeekly shop\n\n- ( ) milk\n- (x) eggs\n",
        "",
        "\n\n\n",
        "no title at all",
        "* T",
        "* T\n\n- (x) a\n  - (-) b\n      --- (?) c\ntrailing words",
        "intro\n* Title   \n\t- plain\n  more\n\n\n-- (=) deep  \n",
        "- (x) first\n* Late title\n",
        "** Nested heading\n* * star title\n\n  - (+)   \n",
        "* T\r\n\r\n line \r\n\r\n- (!) a\r\n",
        "* T\n\u{a0}- (x) after a no-break space\n\u{3000}\n",
        "*\n* \n- ()\n- ( )x\n",
    ];
    for text in samples {
        assert_round_trip(text, Nesting::Indentation);
        assert_round_trip(text, Nesting::PrefixCount);
    }
}

#[test]
fn parse_document_gives_the_parts() {
    let document = NorgParser::parse_document("* A\nb\n- (x) c", Nesting::Indentation);
    assert_eq!(document.title, "A");
    assert_eq!(document.description, "b");
    assert_eq!(document.todos.len(), 1);
    assert_eq!(document.todos[0].text, "c");
    assert_eq!(document.todos[0].line_number, 3);
}

#[test]
fn identifiers_count_from_zero_in_decimal() {
    let mut text = String::new();
    for _ in 0..12 {
        text.push_str("- ( ) x\n");
    }
    let task = NorgParser::parse_task_file("a.norg", &text);
    let ids: Vec<&str> = task.todos.iter().map(|t| t.id.as_str()).collect();
    assert_eq!(ids[0], "todo_0");
    assert_eq!(ids[9], "todo_9");
    assert_eq!(ids[10], "todo_10");
    assert_eq!(ids[11], "todo_11");
}
