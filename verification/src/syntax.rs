//! Documents given as syntax trees: what a Norg parser hands over, held as
//! plain values, and what a task takes from such a tree.
//!
//! The nodes of a tree are read in document order, a node before what it
//! contains. A heading gives its title text, a paragraph its text, an entry of
//! an unordered list that carries a to-do status gives a to-do. Every other
//! node gives nothing. The first heading with a text gives the title of the
//! task. The texts before the first to-do, that title apart, make up the
//! description.

use vstd::prelude::*;
use crate::grammar::{todo_id, untitled, DocumentView};
use crate::parser::{make_todo_id, NorgParser};
use crate::task::{todo_views, Task, TodoItem, TodoItemView, TodoState};
use crate::text::{chars_of, push_str, string_of, trim, trim_of};

verus! {

/// One token of a paragraph.
#[derive(Debug, Clone)]
pub enum ParagraphSegmentToken {
    Text(String),
    Whitespace,
    Special(char),
    Escape(char),
}

/// One segment of a paragraph.
#[derive(Debug)]
pub enum ParagraphSegment {
    Token(ParagraphSegmentToken),
    /// Marked-up text, such as bold or italic.
    AttachedModifier { modifier_type: char, content: Vec<ParagraphSegment> },
    InlineVerbatim(Vec<ParagraphSegmentToken>),
    Link { description: Option<Vec<ParagraphSegment>> },
    /// Any other segment. It holds no text.
    Other,
}

/// The status that a list entry carries.
#[derive(Debug, Clone, Copy, PartialEq, Eq, Structural)]
pub enum TodoStatus {
    Undone,
    Done,
    NeedsClarification,
    Paused,
    Urgent,
    Recurring,
    Pending,
    Canceled,
}

/// What is attached to a list entry or a heading.
#[derive(Debug, Clone, Copy, PartialEq, Eq, Structural)]
pub enum DetachedModifierExtension {
    Todo(TodoStatus),
    /// A priority, a date or the like.
    Other,
}

/// The kinds of nestable entries.
#[derive(Debug, Clone, Copy, PartialEq, Eq, Structural)]
pub enum NestableDetachedModifier {
    Quote,
    UnorderedList,
    OrderedList,
}

/// The text of a list entry.
#[derive(Debug)]
pub enum NorgASTFlat {
    Paragraph(Vec<ParagraphSegment>),
    /// Anything but a paragraph.
    Other,
}

/// A node of the syntax tree of a document.
#[derive(Debug)]
pub enum NorgAST {
    Heading { level: u16, title: Vec<ParagraphSegment>, content: Vec<NorgAST> },
    Paragraph(Vec<ParagraphSegment>),
    NestableDetachedModifier {
        modifier_type: NestableDetachedModifier,
        level: u16,
        text: NorgASTFlat,
        content: Vec<NorgAST>,
        extensions: Vec<DetachedModifierExtension>,
    },
    /// Any other node. It gives nothing.
    Other,
}

/// The text of a token.
pub open spec fn token_text(token: ParagraphSegmentToken) -> Seq<char> {
    match token {
        ParagraphSegmentToken::Text(text) => text@,
        ParagraphSegmentToken::Whitespace => seq![' '],
        ParagraphSegmentToken::Special(c) => seq![c],
        ParagraphSegmentToken::Escape(c) => seq![c],
    }
}

/// The text of a run of tokens.
pub open spec fn tokens_text(tokens: Seq<ParagraphSegmentToken>) -> Seq<char>
    decreases tokens.len(),
{
    if tokens.len() == 0 {
        Seq::empty()
    } else {
        tokens_text(tokens.drop_last()) + token_text(tokens.last())
    }
}

/// The text of a segment, without its markup.
pub open spec fn segment_text(segment: ParagraphSegment) -> Seq<char>
    decreases segment,
{
    match segment {
        ParagraphSegment::Token(token) => token_text(token),
        ParagraphSegment::AttachedModifier { content, .. } => segments_text(content@),
        ParagraphSegment::InlineVerbatim(tokens) => tokens_text(tokens@),
        ParagraphSegment::Link { description: Some(description) } => segments_text(description@),
        ParagraphSegment::Link { description: None } => Seq::empty(),
        ParagraphSegment::Other => Seq::empty(),
    }
}

/// The text of a paragraph, without its markup.
pub open spec fn segments_text(segments: Seq<ParagraphSegment>) -> Seq<char>
    decreases segments,
{
    if segments.len() == 0 {
        Seq::empty()
    } else {
        segments_text(segments.drop_last()) + segment_text(segments.last())
    }
}

/// What a node gives to a task.
pub enum BlockView {
    /// The title text of a heading.
    Heading(Seq<char>),
    /// The text of a paragraph.
    Paragraph(Seq<char>),
    /// A list entry with a to-do status.
    Todo { text: Seq<char>, state: TodoState, level: nat },
}

/// The state of a to-do that a status stands for.
pub open spec fn status_state(status: TodoStatus) -> TodoState {
    match status {
        TodoStatus::Done => TodoState::Done,
        TodoStatus::Pending => TodoState::Pending,
        TodoStatus::Urgent => TodoState::Urgent,
        TodoStatus::Undone => TodoState::Undone,
        TodoStatus::Paused => TodoState::OnHold,
        TodoStatus::Canceled => TodoState::Cancelled,
        TodoStatus::NeedsClarification => TodoState::Uncertain,
        TodoStatus::Recurring => TodoState::Recurring,
    }
}

/// The state that an extension stands for, if it is a to-do status.
pub open spec fn extension_state(extension: DetachedModifierExtension) -> Option<TodoState> {
    match extension {
        DetachedModifierExtension::Todo(status) => Some(status_state(status)),
        DetachedModifierExtension::Other => None,
    }
}

/// The state that the first to-do status among the extensions stands for.
pub open spec fn first_state(extensions: Seq<DetachedModifierExtension>) -> Option<TodoState>
    decreases extensions.len(),
{
    if extensions.len() == 0 {
        None
    } else {
        match extension_state(extensions[0]) {
            Some(state) => Some(state),
            None => first_state(extensions.drop_first()),
        }
    }
}

/// The to-do that a list entry gives: it has one if its text is a paragraph
/// and it carries a to-do status.
pub open spec fn entry_todo(
    text: NorgASTFlat,
    level: u16,
    extensions: Seq<DetachedModifierExtension>,
) -> Option<BlockView> {
    match (text, first_state(extensions)) {
        (NorgASTFlat::Paragraph(segments), Some(state)) => Some(
            BlockView::Todo { text: segments_text(segments@), state, level: level as nat },
        ),
        _ => None,
    }
}

/// What a node and the nodes in it give, in document order.
pub open spec fn node_blocks(node: NorgAST) -> Seq<BlockView>
    decreases node,
{
    match node {
        NorgAST::Heading { title, content, .. } => seq![BlockView::Heading(segments_text(title@))]
            + blocks_of(content@),
        NorgAST::Paragraph(segments) => seq![BlockView::Paragraph(segments_text(segments@))],
        NorgAST::NestableDetachedModifier {
            modifier_type: NestableDetachedModifier::UnorderedList,
            level,
            text,
            content,
            extensions,
        } => (match entry_todo(text, level, extensions@) {
            Some(todo) => seq![todo],
            None => Seq::empty(),
        }) + blocks_of(content@),
        _ => Seq::empty(),
    }
}

/// What the nodes give, in document order.
pub open spec fn blocks_of(nodes: Seq<NorgAST>) -> Seq<BlockView>
    decreases nodes,
{
    if nodes.len() == 0 {
        Seq::empty()
    } else {
        blocks_of(nodes.drop_last()) + node_blocks(nodes.last())
    }
}

/// The text of the first heading that has one, trimmed.
pub open spec fn first_title(blocks: Seq<BlockView>) -> Option<Seq<char>>
    decreases blocks.len(),
{
    if blocks.len() == 0 {
        None
    } else {
        match (first_title(blocks.drop_last()), blocks.last()) {
            (Some(title), _) => Some(title),
            (None, BlockView::Heading(text)) => if trim(text).len() > 0 {
                Some(trim(text))
            } else {
                None
            },
            (None, _) => None,
        }
    }
}

/// The to-dos among the blocks, numbered in their order. A tree gives no
/// line numbers.
pub open spec fn tree_todos(blocks: Seq<BlockView>) -> Seq<TodoItemView>
    decreases blocks.len(),
{
    if blocks.len() == 0 {
        Seq::empty()
    } else {
        let earlier = tree_todos(blocks.drop_last());
        match blocks.last() {
            BlockView::Todo { text, state, level } => earlier.push(
                TodoItemView { id: todo_id(earlier.len()), text, state, level, line_number: 0 },
            ),
            _ => earlier,
        }
    }
}

/// The text that a block can give to the description: that of a heading or a
/// paragraph, unless it is blank.
pub open spec fn block_text(block: BlockView) -> Option<Seq<char>> {
    match block {
        BlockView::Heading(text) => if trim(text).len() > 0 {
            Some(text)
        } else {
            None
        },
        BlockView::Paragraph(text) => if trim(text).len() > 0 {
            Some(text)
        } else {
            None
        },
        BlockView::Todo { .. } => None,
    }
}

/// The last block belongs to the description: it has a text, no to-do stands
/// before it, and it is not the heading that gives the title.
pub open spec fn joins_description(blocks: Seq<BlockView>) -> bool {
    &&& blocks.len() > 0
    &&& block_text(blocks.last()) is Some
    &&& tree_todos(blocks.drop_last()).len() == 0
    &&& !(first_title(blocks.drop_last()) is None && first_title(blocks) is Some)
}

/// The texts that make up the description.
pub open spec fn tree_parts(blocks: Seq<BlockView>) -> Seq<Seq<char>>
    decreases blocks.len(),
{
    if blocks.len() == 0 {
        Seq::empty()
    } else if joins_description(blocks) {
        tree_parts(blocks.drop_last()).push(block_text(blocks.last()).unwrap())
    } else {
        tree_parts(blocks.drop_last())
    }
}

/// The texts put together, with an empty line between two texts.
pub open spec fn join_paragraphs(parts: Seq<Seq<char>>) -> Seq<char>
    decreases parts.len(),
{
    if parts.len() == 0 {
        Seq::empty()
    } else if parts.len() == 1 {
        parts[0]
    } else {
        join_paragraphs(parts.drop_last()) + seq!['\n', '\n'] + parts.last()
    }
}

/// The title that a tree gives.
pub open spec fn tree_title(nodes: Seq<NorgAST>) -> Seq<char> {
    match first_title(blocks_of(nodes)) {
        Some(title) => title,
        None => untitled(),
    }
}

/// The description that a tree gives.
pub open spec fn tree_description(nodes: Seq<NorgAST>) -> Seq<char> {
    trim(join_paragraphs(tree_parts(blocks_of(nodes))))
}

/// The document that a tree gives.
pub open spec fn tree_document(nodes: Seq<NorgAST>) -> DocumentView {
    DocumentView {
        title: tree_title(nodes),
        description: tree_description(nodes),
        todos: tree_todos(blocks_of(nodes)),
    }
}

/// Appends the text of the tokens to `buffer`.
fn push_tokens(buffer: &mut Vec<char>, tokens: &Vec<ParagraphSegmentToken>)
    ensures
        final(buffer)@ == old(buffer)@ + tokens_text(tokens@),
{
    let mut i: usize = 0;
    proof {
        assert(tokens@.take(0) =~= Seq::<ParagraphSegmentToken>::empty());
        assert(old(buffer)@ + tokens_text(tokens@.take(0)) =~= old(buffer)@);
    }
    while i < tokens.len()
        invariant
            i <= tokens@.len(),
            buffer@ == old(buffer)@ + tokens_text(tokens@.take(i as int)),
        decreases tokens@.len() - i,
    {
        let ghost before = buffer@;
        push_token(buffer, &tokens[i]);
        proof {
            assert(tokens@.take(i + 1).drop_last() =~= tokens@.take(i as int));
            assert(tokens@.take(i + 1).last() == tokens@[i as int]);
            assert(old(buffer)@ + (tokens_text(tokens@.take(i as int)) + token_text(
                tokens@[i as int],
            )) =~= before + token_text(tokens@[i as int]));
        }
        i += 1;
    }
    proof {
        assert(tokens@.take(i as int) =~= tokens@);
    }
}

/// Appends the text of a token to `buffer`.
fn push_token(buffer: &mut Vec<char>, token: &ParagraphSegmentToken)
    ensures
        final(buffer)@ == old(buffer)@ + token_text(*token),
{
    match token {
        ParagraphSegmentToken::Text(text) => {
            push_str(buffer, text.as_str());
        },
        ParagraphSegmentToken::Whitespace => {
            buffer.push(' ');
            proof {
                assert(buffer@ =~= old(buffer)@ + seq![' ']);
            }
        },
        ParagraphSegmentToken::Special(c) => {
            buffer.push(*c);
            proof {
                assert(buffer@ =~= old(buffer)@ + seq![*c]);
            }
        },
        ParagraphSegmentToken::Escape(c) => {
            buffer.push(*c);
            proof {
                assert(buffer@ =~= old(buffer)@ + seq![*c]);
            }
        },
    }
}

/// Appends the text of the segments to `buffer`.
fn push_segments(buffer: &mut Vec<char>, segments: &Vec<ParagraphSegment>)
    ensures
        final(buffer)@ == old(buffer)@ + segments_text(segments@),
    decreases segments,
{
    let mut i: usize = 0;
    proof {
        assert(segments@.take(0) =~= Seq::<ParagraphSegment>::empty());
        assert(old(buffer)@ + segments_text(segments@.take(0)) =~= old(buffer)@);
    }
    while i < segments.len()
        invariant
            i <= segments@.len(),
            buffer@ == old(buffer)@ + segments_text(segments@.take(i as int)),
        decreases segments@.len() - i,
    {
        let ghost before = buffer@;
        match &segments[i] {
            ParagraphSegment::Token(token) => {
                push_token(buffer, token);
            },
            ParagraphSegment::AttachedModifier { content, .. } => {
                push_segments(buffer, content);
            },
            ParagraphSegment::InlineVerbatim(tokens) => {
                push_tokens(buffer, tokens);
            },
            ParagraphSegment::Link { description } => {
                match description {
                    Some(description) => {
                        push_segments(buffer, description);
                    },
                    None => {
                        proof {
                            assert(buffer@ =~= before + Seq::<char>::empty());
                        }
                    },
                }
            },
            ParagraphSegment::Other => {
                proof {
                    assert(buffer@ =~= before + Seq::<char>::empty());
                }
            },
        }
        proof {
            assert(buffer@ == before + segment_text(segments@[i as int]));
            assert(segments@.take(i + 1).drop_last() =~= segments@.take(i as int));
            assert(segments@.take(i + 1).last() == segments@[i as int]);
            assert(old(buffer)@ + (segments_text(segments@.take(i as int)) + segment_text(
                segments@[i as int],
            )) =~= before + segment_text(segments@[i as int]));
        }
        i += 1;
    }
    proof {
        assert(segments@.take(i as int) =~= segments@);
    }
}

/// What has been taken from the blocks read so far.
struct Extraction {
    title: Option<String>,
    parts: Vec<String>,
    todos: Vec<TodoItem>,
    blocks: Ghost<Seq<BlockView>>,
}

/// The character sequences of the strings.
pub open spec fn string_views(strings: Seq<String>) -> Seq<Seq<char>> {
    strings.map_values(|s: String| s@)
}

impl Extraction {
    /// The title, the parts and the to-dos are those of the blocks read.
    spec fn wf(&self) -> bool {
        &&& match self.title {
            Some(title) => first_title(self.blocks@) == Some(title@),
            None => first_title(self.blocks@) is None,
        }
        &&& string_views(self.parts@) == tree_parts(self.blocks@)
        &&& todo_views(self.todos@) == tree_todos(self.blocks@)
    }

    fn new() -> (extraction: Extraction)
        ensures
            extraction.wf(),
            extraction.blocks@.len() == 0,
    {
        let extraction = Extraction {
            title: None,
            parts: Vec::new(),
            todos: Vec::new(),
            blocks: Ghost(Seq::empty()),
        };
        proof {
            assert(string_views(extraction.parts@) =~= Seq::<Seq<char>>::empty());
            assert(todo_views(extraction.todos@) =~= Seq::<TodoItemView>::empty());
        }
        extraction
    }

    /// Takes in the text of a heading, if `heading`, or of a paragraph.
    fn add_text(&mut self, text: String, heading: bool)
        requires
            old(self).wf(),
        ensures
            final(self).wf(),
            final(self).blocks@ == old(self).blocks@.push(
                if heading {
                    BlockView::Heading(text@)
                } else {
                    BlockView::Paragraph(text@)
                },
            ),
    {
        let ghost block = if heading {
            BlockView::Heading(text@)
        } else {
            BlockView::Paragraph(text@)
        };
        let ghost before = self.blocks@;
        let ghost after = before.push(block);
        let ghost earlier_parts = string_views(self.parts@);
        proof {
            assert(after.drop_last() =~= before);
            assert(after.last() == block);
        }
        let chars = chars_of(text.as_str());
        let trimmed = trim_of(chars.as_slice());
        let blank = trimmed.len() == 0;
        if heading && !blank && self.title.is_none() {
            self.title = Some(string_of(trimmed));
        } else if !blank && self.todos.len() == 0 {
            self.parts.push(text);
            proof {
                assert(string_views(self.parts@) =~= earlier_parts.push(text@));
            }
        }
        self.blocks = Ghost(after);
    }

    /// Takes in a to-do.
    fn add_todo(&mut self, item: TodoItem)
        requires
            old(self).wf(),
            item.id@ == todo_id(old(self).todos@.len()),
            item.line_number == 0,
        ensures
            final(self).wf(),
            final(self).blocks@ == old(self).blocks@.push(
                BlockView::Todo { text: item.text@, state: item.state, level: item.level as nat },
            ),
    {
        let ghost block = BlockView::Todo {
            text: item.text@,
            state: item.state,
            level: item.level as nat,
        };
        let ghost before = self.blocks@;
        let ghost after = before.push(block);
        let ghost earlier = todo_views(self.todos@);
        proof {
            assert(after.drop_last() =~= before);
            assert(after.last() == block);
        }
        self.todos.push(item);
        proof {
            assert(todo_views(self.todos@) =~= earlier.push(item@));
        }
        self.blocks = Ghost(after);
    }

    /// Takes in the nodes and what they contain, in document order.
    fn add_nodes(&mut self, nodes: &Vec<NorgAST>)
        requires
            old(self).wf(),
        ensures
            final(self).wf(),
            final(self).blocks@ == old(self).blocks@ + blocks_of(nodes@),
        decreases nodes,
    {
        let mut i: usize = 0;
        proof {
            assert(nodes@.take(0) =~= Seq::<NorgAST>::empty());
            assert(old(self).blocks@ + blocks_of(nodes@.take(0)) =~= old(self).blocks@);
        }
        while i < nodes.len()
            invariant
                i <= nodes@.len(),
                self.wf(),
                self.blocks@ == old(self).blocks@ + blocks_of(nodes@.take(i as int)),
            decreases nodes@.len() - i,
        {
            let ghost before = self.blocks@;
            match &nodes[i] {
                NorgAST::Heading { title, content, .. } => {
                    self.add_text(NorgParser::paragraph_to_string(title), true);
                    self.add_nodes(content);
                    proof {
                        assert(self.blocks@ =~= before + node_blocks(nodes@[i as int]));
                    }
                },
                NorgAST::Paragraph(segments) => {
                    self.add_text(NorgParser::paragraph_to_string(segments), false);
                    proof {
                        assert(self.blocks@ =~= before + node_blocks(nodes@[i as int]));
                    }
                },
                NorgAST::NestableDetachedModifier {
                    modifier_type: NestableDetachedModifier::UnorderedList,
                    level,
                    text,
                    content,
                    extensions,
                } => {
                    match NorgParser::extract_todo_from_modifier(
                        text,
                        *level,
                        extensions,
                        self.todos.len(),
                    ) {
                        Some(item) => {
                            self.add_todo(item);
                        },
                        None => {},
                    }
                    self.add_nodes(content);
                    proof {
                        assert(self.blocks@ =~= before + node_blocks(nodes@[i as int]));
                    }
                },
                _ => {
                    proof {
                        assert(self.blocks@ =~= before + node_blocks(nodes@[i as int]));
                    }
                },
            }
            proof {
                assert(nodes@.take(i + 1).drop_last() =~= nodes@.take(i as int));
                assert(nodes@.take(i + 1).last() == nodes@[i as int]);
                assert(old(self).blocks@ + (blocks_of(nodes@.take(i as int)) + node_blocks(
                    nodes@[i as int],
                )) =~= before + node_blocks(nodes@[i as int]));
            }
            i += 1;
        }
        proof {
            assert(nodes@.take(i as int) =~= nodes@);
        }
    }
}

/// Joins the texts, with an empty line between two texts.
fn join_parts(parts: &Vec<String>) -> (joined: Vec<char>)
    ensures
        joined@ == join_paragraphs(string_views(parts@)),
{
    let mut joined: Vec<char> = Vec::new();
    let mut i: usize = 0;
    while i < parts.len()
        invariant
            i <= parts@.len(),
            joined@ == join_paragraphs(string_views(parts@).take(i as int)),
        decreases parts@.len() - i,
    {
        let ghost views = string_views(parts@);
        proof {
            assert(views.take(i + 1).drop_last() =~= views.take(i as int));
            assert(views.take(i + 1).last() == parts@[i as int]@);
        }
        if i > 0 {
            joined.push('\n');
            joined.push('\n');
        }
        push_str(&mut joined, parts[i].as_str());
        proof {
            assert(joined@ =~= join_paragraphs(views.take(i + 1)));
        }
        i += 1;
    }
    proof {
        assert(string_views(parts@).take(i as int) =~= string_views(parts@));
    }
    joined
}

impl NorgParser {
    /// The text of a paragraph, without its markup.
    pub fn paragraph_to_string(segments: &Vec<ParagraphSegment>) -> (text: String)
        ensures
            text@ == segments_text(segments@),
    {
        let mut buffer: Vec<char> = Vec::new();
        push_segments(&mut buffer, segments);
        string_of(buffer.as_slice())
    }

    /// The state that an extension stands for, if it is a to-do status.
    pub fn extract_todo_state_from_extension(extension: &DetachedModifierExtension) -> (state:
        Option<TodoState>)
        ensures
            state == extension_state(*extension),
    {
        match extension {
            DetachedModifierExtension::Todo(status) => match status {
                TodoStatus::Done => Some(TodoState::Done),
                TodoStatus::Pending => Some(TodoState::Pending),
                TodoStatus::Urgent => Some(TodoState::Urgent),
                TodoStatus::Undone => Some(TodoState::Undone),
                TodoStatus::Paused => Some(TodoState::OnHold),
                TodoStatus::Canceled => Some(TodoState::Cancelled),
                TodoStatus::NeedsClarification => Some(TodoState::Uncertain),
                TodoStatus::Recurring => Some(TodoState::Recurring),
            },
            DetachedModifierExtension::Other => None,
        }
    }

    /// The to-do that a list entry gives, numbered `position`: it gives one
    /// if its text is a paragraph and it carries a to-do status.
    pub fn extract_todo_from_modifier(
        text: &NorgASTFlat,
        level: u16,
        extensions: &Vec<DetachedModifierExtension>,
        position: usize,
    ) -> (todo: Option<TodoItem>)
        ensures
            match todo {
                Some(item) => {
                    &&& entry_todo(*text, level, extensions@) == Some(
                        BlockView::Todo {
                            text: item.text@,
                            state: item.state,
                            level: item.level as nat,
                        },
                    )
                    &&& item.id@ == todo_id(position as nat)
                    &&& item.line_number == 0
                },
                None => entry_todo(*text, level, extensions@) is None,
            },
    {
        match text {
            NorgASTFlat::Paragraph(segments) => {
                let mut i: usize = 0;
                proof {
                    assert(extensions@.skip(0) =~= extensions@);
                }
                while i < extensions.len()
                    invariant
                        i <= extensions@.len(),
                        *text == NorgASTFlat::Paragraph(*segments),
                        first_state(extensions@) == first_state(extensions@.skip(i as int)),
                    decreases extensions@.len() - i,
                {
                    proof {
                        assert(extensions@.skip(i as int).drop_first() =~= extensions@.skip(i + 1));
                        assert(extensions@.skip(i as int)[0] == extensions@[i as int]);
                    }
                    match Self::extract_todo_state_from_extension(&extensions[i]) {
                        Some(state) => {
                            let content = Self::paragraph_to_string(segments);
                            proof {
                                assert(extensions@.skip(i as int).len() > 0);
                                assert(first_state(extensions@.skip(i as int)) == Some(state));
                                assert(*text == NorgASTFlat::Paragraph(*segments));
                                assert(entry_todo(*text, level, extensions@) == Some(
                                    BlockView::Todo {
                                        text: segments_text(segments@),
                                        state,
                                        level: level as nat,
                                    },
                                ));
                            }
                            return Some(
                                TodoItem {
                                    id: make_todo_id(position),
                                    text: content,
                                    state,
                                    level: level as usize,
                                    line_number: 0,
                                },
                            );
                        },
                        None => {},
                    }
                    i += 1;
                }
                None
            },
            NorgASTFlat::Other => None,
        }
    }

    /// The title that a tree gives: the trimmed text of its first heading
    /// that has one, or else the title of an untitled task.
    pub fn extract_title_from_ast(ast: &Vec<NorgAST>) -> (title: String)
        ensures
            title@ == tree_title(ast@),
    {
        let mut extraction = Extraction::new();
        extraction.add_nodes(ast);
        proof {
            assert(extraction.blocks@ =~= blocks_of(ast@));
        }
        match extraction.title {
            Some(title) => title,
            None => "Untitled Task".to_owned(),
        }
    }

    /// The description and the to-dos that a tree gives.
    pub fn extract_content_from_ast(ast: &Vec<NorgAST>) -> (content: (String, Vec<TodoItem>))
        ensures
            content.0@ == tree_description(ast@),
            todo_views(content.1@) == tree_todos(blocks_of(ast@)),
    {
        let mut extraction = Extraction::new();
        extraction.add_nodes(ast);
        proof {
            assert(extraction.blocks@ =~= blocks_of(ast@));
        }
        let joined = join_parts(&extraction.parts);
        (string_of(trim_of(joined.as_slice())), extraction.todos)
    }

    /// Makes a fresh task of the document at `file_path`, given as the syntax
    /// tree `ast`.
    pub fn parse_task_tree(file_path: &str, ast: &Vec<NorgAST>) -> (task: Task)
        ensures
            task.document() == tree_document(ast@),
            task.file_path@ == file_path@,
            task.relations@.len() == 0,
            task.due_date is None,
            task.created_at == task.updated_at,
            task.id@.len() == 36,
    {
        let title = Self::extract_title_from_ast(ast);
        let mut task = Task::new(title, file_path.to_owned());
        let (description, todos) = Self::extract_content_from_ast(ast);
        task.description = description;
        task.todos = todos;
        task
    }
}

} // verus!
