use norgdo::parser::NorgParser;
use norgdo::syntax::{
    DetachedModifierExtension, NestableDetachedModifier, NorgAST, NorgASTFlat, ParagraphSegment,
    ParagraphSegmentToken, TodoStatus,
};
use norgdo::task::TodoState;

fn words(text: &str) -> Vec<ParagraphSegment> {
    let mut segments = Vec::new();
    for (i, word) in text.split(' ').enumerate() {
        if i > 0 {
            segments.push(ParagraphSegment::Token(ParagraphSegmentToken::Whitespace));
        }
        segments.push(ParagraphSegment::Token(ParagraphSegmentToken::Text(word.to_string())));
    }
    segments
}

fn entry(level: u16, text: &str, extensions: Vec<DetachedModifierExtension>, content: Vec<NorgAST>) -> NorgAST {
    NorgAST::NestableDetachedModifier {
        modifier_type: NestableDetachedModifier::UnorderedList,
        level,
        text: NorgASTFlat::Paragraph(words(text)),
        content,
        extensions,
    }
}

fn groceries() -> Vec<NorgAST> {
    vec![NorgAST::Heading {
        level: 1,
        title: words("Buy groceries"),
        content: vec![
            NorgAST::Paragraph(words("Weekly shop")),
            entry(1, "milk", vec![DetachedModifierExtension::Todo(TodoStatus::Undone)], vec![]),
            entry(1, "eggs", vec![DetachedModifierExtension::Todo(TodoStatus::Done)], vec![]),
        ],
    }]
}

#[test]
fn paragraph_text_without_markup() {
    let segments = vec![
        ParagraphSegment::Token(ParagraphSegmentToken::Text("Buy".to_string())),
        ParagraphSegment::Token(ParagraphSegmentToken::Whitespace),
        ParagraphSegment::AttachedModifier {
            modifier_type: '*',
            content: vec![
                ParagraphSegment::Token(ParagraphSegmentToken::Text("fresh".to_string())),
                ParagraphSegment::Token(ParagraphSegmentToken::Special('-')),
                ParagraphSegment::AttachedModifier { modifier_type: '/', content: words("ripe") },
            ],
        },
        ParagraphSegment::Token(ParagraphSegmentToken::Escape('!')),
        ParagraphSegment::InlineVerbatim(vec![
            ParagraphSegmentToken::Whitespace,
            ParagraphSegmentToken::Text("x".to_string()),
            ParagraphSegmentToken::Special('='),
            ParagraphSegmentToken::Escape('1'),
        ]),
        ParagraphSegment::Other,
        ParagraphSegment::Link { description: Some(words(" a link")) },
        ParagraphSegment::Link { description: None },
    ];
    assert_eq!(NorgParser::paragraph_to_string(&segments), "Buy fresh-ripe! x=1 a link");
    assert_eq!(NorgParser::paragraph_to_string(&Vec::new()), "");
}

#[test]
fn states_of_extensions() {
    let table = [
        (TodoStatus::Done, TodoState::Done),
        (TodoStatus::Pending, TodoState::Pending),
        (TodoStatus::Urgent, TodoState::Urgent),
        (TodoStatus::Undone, TodoState::Undone),
        (TodoStatus::Paused, TodoState::OnHold),
        (TodoStatus::Canceled, TodoState::Cancelled),
        (TodoStatus::NeedsClarification, TodoState::Uncertain),
        (TodoStatus::Recurring, TodoState::Recurring),
    ];
    for (status, state) in table {
        assert_eq!(
            NorgParser::extract_todo_state_from_extension(&DetachedModifierExtension::Todo(status)),
            Some(state)
        );
    }
    assert_eq!(
        NorgParser::extract_todo_state_from_extension(&DetachedModifierExtension::Other),
        None
    );
}

#[test]
fn todo_of_a_list_entry() {
    let text = NorgASTFlat::Paragraph(words("call home"));
    let extensions = vec![
        DetachedModifierExtension::Other,
        DetachedModifierExtension::Todo(TodoStatus::Paused),
        DetachedModifierExtension::Todo(TodoStatus::Done),
    ];
    let item = NorgParser::extract_todo_from_modifier(&text, 3, &extensions, 7).unwrap();
    assert_eq!(item.id, "todo_7");
    assert_eq!(item.text, "call home");
    assert_eq!(item.state, TodoState::OnHold);
    assert_eq!(item.level, 3);
    assert_eq!(item.line_number, 0);
}

#[test]
fn list_entry_without_status_or_paragraph_is_no_todo() {
    let text = NorgASTFlat::Paragraph(words("plain"));
    assert!(NorgParser::extract_todo_from_modifier(&text, 1, &vec![], 0).is_none());
    assert!(NorgParser::extract_todo_from_modifier(
        &text,
        1,
        &vec![DetachedModifierExtension::Other],
        0
    )
    .is_none());
    assert!(NorgParser::extract_todo_from_modifier(
        &NorgASTFlat::Other,
        1,
        &vec![DetachedModifierExtension::Todo(TodoStatus::Done)],
        0
    )
    .is_none());
}

#[test]
fn groceries_tree() {
    let tree = groceries();
    assert_eq!(NorgParser::extract_title_from_ast(&tree), "Buy groceries");
    let (description, todos) = NorgParser::extract_content_from_ast(&tree);
    assert_eq!(description, "Weekly shop");
    assert_eq!(todos.len(), 2);
    assert_eq!(todos[0].id, "todo_0");
    assert_eq!(todos[0].text, "milk");
    assert_eq!(todos[0].state, TodoState::Undone);
    assert_eq!(todos[0].level, 1);
    assert_eq!(todos[1].id, "todo_1");
    assert_eq!(todos[1].text, "eggs");
    assert_eq!(todos[1].state, TodoState::Done);
    let task = NorgParser::parse_task_tree("g.norg", &tree);
    assert_eq!(task.title, "Buy groceries");
    assert_eq!(task.description, "Weekly shop");
    assert_eq!(task.todos.len(), 2);
    assert_eq!(task.file_path, "g.norg");
}

#[test]
fn tree_without_heading_gets_the_placeholder_title() {
    let tree = vec![NorgAST::Paragraph(words("notes")), NorgAST::Other];
    assert_eq!(NorgParser::extract_title_from_ast(&tree), "Untitled Task");
    let (description, todos) = NorgParser::extract_content_from_ast(&tree);
    assert_eq!(description, "notes");
    assert!(todos.is_empty());
    assert_eq!(NorgParser::extract_title_from_ast(&Vec::new()), "Untitled Task");
}

#[test]
fn tree_in_document_order() {
    let tree = vec![
        NorgAST::Paragraph(words("before")),
        NorgAST::Heading { level: 1, title: vec![], content: vec![] },
        NorgAST::Heading {
            level: 1,
            title: words(" Main "),
            content: vec![
                NorgAST::Paragraph(words("intro")),
                NorgAST::Paragraph(vec![ParagraphSegment::Token(ParagraphSegmentToken::Whitespace)]),
                NorgAST::Heading {
                    level: 2,
                    title: words("Part"),
                    content: vec![
                        entry(1, "plain entry", vec![], vec![NorgAST::Paragraph(words("inside"))]),
                        entry(
                            1,
                            "outer",
                            vec![DetachedModifierExtension::Todo(TodoStatus::Pending)],
                            vec![
                                entry(
                                    2,
                                    "inner",
                                    vec![DetachedModifierExtension::Todo(TodoStatus::Urgent)],
                                    vec![],
                                ),
                                NorgAST::Paragraph(words("too late")),
                            ],
                        ),
                    ],
                },
                NorgAST::NestableDetachedModifier {
                    modifier_type: NestableDetachedModifier::OrderedList,
                    level: 1,
                    text: NorgASTFlat::Paragraph(words("numbered")),
                    content: vec![entry(
                        2,
                        "hidden",
                        vec![DetachedModifierExtension::Todo(TodoStatus::Done)],
                        vec![],
                    )],
                    extensions: vec![DetachedModifierExtension::Todo(TodoStatus::Done)],
                },
            ],
        },
        NorgAST::Paragraph(words("after")),
        entry(1, "last", vec![DetachedModifierExtension::Todo(TodoStatus::Canceled)], vec![]),
    ];
    assert_eq!(NorgParser::extract_title_from_ast(&tree), "Main");
    let (description, todos) = NorgParser::extract_content_from_ast(&tree);
    assert_eq!(description, "before\n\nintro\n\nPart\n\ninside");
    let found: Vec<(String, TodoState, usize, String)> =
        todos.iter().map(|t| (t.text.clone(), t.state, t.level, t.id.clone())).collect();
    assert_eq!(
        found,
        vec![
            ("outer".to_string(), TodoState::Pending, 1, "todo_0".to_string()),
            ("inner".to_string(), TodoState::Urgent, 2, "todo_1".to_string()),
            ("last".to_string(), TodoState::Cancelled, 1, "todo_2".to_string()),
        ]
    );
}
