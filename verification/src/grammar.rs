//! The document grammar: what a heading line and a to-do line are, what a
//! document text means, and the canonical text of a document.
//!
//! A document is read line by line. A heading line is `*`, repeated at will,
//! followed by whitespace and the heading text. A to-do line is `-`, repeated
//! at will, then a status character in round brackets, then the text of the
//! item. Whitespace may stand before either, and between the dashes and the
//! opening bracket. The first heading line with a text gives the title. The
//! lines before the first to-do line, the title line apart, make up the
//! description. Every other line that is no to-do line is dropped.

use vstd::prelude::*;
use crate::task::{TodoItemView, TodoState};
use crate::text::{decimal, join_lines, leading_run, leading_whitespace, lines, trim, trim_start, is_whitespace};

verus! {

/// How the nesting depth of a to-do is written down.
#[derive(Debug, Clone, Copy, PartialEq, Eq, Structural)]
pub enum Nesting {
    /// Two columns of indentation for each level, before a single dash.
    Indentation,
    /// One dash for each level, and at least one.
    PrefixCount,
}

/// What a to-do line holds.
pub struct TodoLine {
    /// The number of whitespace characters before the dashes.
    pub indent: nat,
    /// The number of dashes.
    pub dashes: nat,
    /// The character between the brackets.
    pub status: char,
    /// The text after the closing bracket, trimmed.
    pub text: Seq<char>,
}

/// Reads `line` as a to-do line, if it is one.
pub open spec fn todo_line(line: Seq<char>) -> Option<TodoLine> {
    let indent = leading_whitespace(line);
    let body = line.skip(indent as int);
    let dashes = leading_run(body, '-');
    let marker = trim_start(body.skip(dashes as int));
    if dashes >= 1 && marker.len() >= 3 && marker[0] == '(' && marker[2] == ')' {
        Some(TodoLine { indent, dashes, status: marker[1], text: trim(marker.skip(3)) })
    } else {
        None
    }
}

pub open spec fn is_todo_line(line: Seq<char>) -> bool {
    todo_line(line) is Some
}

/// The nesting depth that a to-do line stands for.
pub open spec fn level_of(todo: TodoLine, nesting: Nesting) -> nat {
    match nesting {
        Nesting::Indentation => todo.indent / 2,
        Nesting::PrefixCount => todo.dashes,
    }
}

/// The text of `line` if it is a heading line. The text may be empty.
pub open spec fn heading_text(line: Seq<char>) -> Option<Seq<char>> {
    let body = trim_start(line);
    let stars = leading_run(body, '*');
    let after = body.skip(stars as int);
    if stars >= 1 && (after.len() == 0 || is_whitespace(after[0])) {
        Some(trim(after))
    } else {
        None
    }
}

/// A heading line with a text: such a line can give the title.
pub open spec fn is_title_line(line: Seq<char>) -> bool {
    heading_text(line) is Some && heading_text(line).unwrap().len() > 0
}

/// The index of the first title line, or the number of lines if there is none.
pub open spec fn title_index(lines: Seq<Seq<char>>) -> nat
    decreases lines.len(),
{
    if lines.len() > 0 && !is_title_line(lines[0]) {
        1 + title_index(lines.drop_first())
    } else {
        0
    }
}

/// The index of the first to-do line, or the number of lines if there is none.
pub open spec fn todo_start(lines: Seq<Seq<char>>) -> nat
    decreases lines.len(),
{
    if lines.len() > 0 && !is_todo_line(lines[0]) {
        1 + todo_start(lines.drop_first())
    } else {
        0
    }
}

/// The title of a document without a title line.
pub open spec fn untitled() -> Seq<char> {
    "Untitled Task"@
}

/// The title: the text of the first title line.
pub open spec fn title_of(lines: Seq<Seq<char>>) -> Seq<char> {
    if title_index(lines) < lines.len() {
        heading_text(lines[title_index(lines) as int]).unwrap()
    } else {
        untitled()
    }
}

/// The lines of the description: those before the first to-do line, without
/// the title line.
pub open spec fn description_lines(lines: Seq<Seq<char>>) -> Seq<Seq<char>> {
    let before = lines.take(todo_start(lines) as int);
    if title_index(lines) < todo_start(lines) {
        before.remove(title_index(lines) as int)
    } else {
        before
    }
}

/// The description: its lines joined by line feeds, and trimmed.
pub open spec fn description_of(lines: Seq<Seq<char>>) -> Seq<char> {
    trim(join_lines(description_lines(lines)))
}

/// The identifier of the to-do at position `n` of its task.
pub open spec fn todo_id(n: nat) -> Seq<char> {
    seq!['t', 'o', 'd', 'o', '_'] + decimal(n)
}

/// The to-do that stands on line number `line_number` and is the to-do number
/// `position` of its document.
pub open spec fn todo_item(
    todo: TodoLine,
    nesting: Nesting,
    position: nat,
    line_number: nat,
) -> TodoItemView {
    TodoItemView {
        id: todo_id(position),
        text: todo.text,
        state: TodoState::spec_decode(todo.status),
        level: level_of(todo, nesting),
        line_number,
    }
}

/// The to-dos: one for each to-do line, in the order of the lines.
pub open spec fn todos_of(lines: Seq<Seq<char>>, nesting: Nesting) -> Seq<TodoItemView>
    decreases lines.len(),
{
    if lines.len() == 0 {
        Seq::empty()
    } else {
        let earlier = todos_of(lines.drop_last(), nesting);
        match todo_line(lines.last()) {
            Some(todo) => earlier.push(todo_item(todo, nesting, earlier.len(), lines.len())),
            None => earlier,
        }
    }
}

/// What a document holds.
pub struct DocumentView {
    pub title: Seq<char>,
    pub description: Seq<char>,
    pub todos: Seq<TodoItemView>,
}

/// The meaning of a document text.
pub open spec fn parsed(text: Seq<char>, nesting: Nesting) -> DocumentView {
    DocumentView {
        title: title_of(lines(text)),
        description: description_of(lines(text)),
        todos: todos_of(lines(text), nesting),
    }
}

/// What stands before the status marker of a written to-do.
pub open spec fn list_prefix(level: nat, nesting: Nesting) -> Seq<char> {
    match nesting {
        Nesting::Indentation => Seq::new(2 * level, |i: int| ' ').push('-'),
        Nesting::PrefixCount => Seq::new(
            if level == 0 {
                1
            } else {
                level
            },
            |i: int| '-',
        ),
    }
}

/// The line that a to-do is written as, without its line feed.
pub open spec fn written_todo(todo: TodoItemView, nesting: Nesting) -> Seq<char> {
    list_prefix(todo.level, nesting) + seq![' ', '(', todo.state.spec_to_norg_char(), ')', ' ']
        + todo.text
}

/// The lines of the to-dos, each with its line feed.
pub open spec fn written_todos(todos: Seq<TodoItemView>, nesting: Nesting) -> Seq<char>
    decreases todos.len(),
{
    if todos.len() == 0 {
        Seq::empty()
    } else {
        written_todos(todos.drop_last(), nesting) + written_todo(todos.last(), nesting)
            + seq!['\n']
    }
}

/// The description block of a written document: nothing for an empty
/// description, else the description and an empty line.
pub open spec fn written_description(description: Seq<char>) -> Seq<char> {
    if description.len() > 0 {
        description + seq!['\n', '\n']
    } else {
        Seq::empty()
    }
}

/// The canonical text of a document: the heading line, an empty line, the
/// description block and one line for each to-do.
pub open spec fn written(document: DocumentView, nesting: Nesting) -> Seq<char> {
    seq!['*', ' '] + document.title + seq!['\n', '\n'] + written_description(
        document.description,
    ) + written_todos(document.todos, nesting)
}

/// What singles out `title_index(lines)`: no line before it is a title line,
/// and the line at it, if there is one, is.
pub proof fn lemma_title_index(lines: Seq<Seq<char>>, n: int)
    ensures
        title_index(lines) <= lines.len(),
        forall|i: int| 0 <= i < title_index(lines) ==> !is_title_line(#[trigger] lines[i]),
        title_index(lines) < lines.len() ==> is_title_line(lines[title_index(lines) as int]),
        (0 <= n <= lines.len() && (forall|i: int| 0 <= i < n ==> !is_title_line(#[trigger] lines[i]))
            && (n < lines.len() ==> is_title_line(lines[n]))) ==> title_index(lines) == n,
    decreases lines.len(),
{
    if lines.len() > 0 && !is_title_line(lines[0]) {
        let rest = lines.drop_first();
        lemma_title_index(rest, n - 1);
        assert forall|i: int| 0 <= i < title_index(lines) implies !is_title_line(
            #[trigger] lines[i],
        ) by {
            if i > 0 {
                assert(lines[i] == rest[i - 1]);
            }
        }
        if 0 <= n <= lines.len() && (forall|i: int| 0 <= i < n ==> !is_title_line(#[trigger] lines[i]))
            && (n < lines.len() ==> is_title_line(lines[n])) {
            assert(n >= 1);
            assert forall|i: int| 0 <= i < n - 1 implies !is_title_line(#[trigger] rest[i]) by {
                assert(rest[i] == lines[i + 1]);
            }
        }
    }
}

/// What singles out `todo_start(lines)`: no line before it is a to-do line,
/// and the line at it, if there is one, is.
pub proof fn lemma_todo_start(lines: Seq<Seq<char>>, n: int)
    ensures
        todo_start(lines) <= lines.len(),
        forall|i: int| 0 <= i < todo_start(lines) ==> !is_todo_line(#[trigger] lines[i]),
        todo_start(lines) < lines.len() ==> is_todo_line(lines[todo_start(lines) as int]),
        (0 <= n <= lines.len() && (forall|i: int| 0 <= i < n ==> !is_todo_line(#[trigger] lines[i]))
            && (n < lines.len() ==> is_todo_line(lines[n]))) ==> todo_start(lines) == n,
    decreases lines.len(),
{
    if lines.len() > 0 && !is_todo_line(lines[0]) {
        let rest = lines.drop_first();
        lemma_todo_start(rest, n - 1);
        assert forall|i: int| 0 <= i < todo_start(lines) implies !is_todo_line(
            #[trigger] lines[i],
        ) by {
            if i > 0 {
                assert(lines[i] == rest[i - 1]);
            }
        }
        if 0 <= n <= lines.len() && (forall|i: int| 0 <= i < n ==> !is_todo_line(#[trigger] lines[i]))
            && (n < lines.len() ==> is_todo_line(lines[n])) {
            assert(n >= 1);
            assert forall|i: int| 0 <= i < n - 1 implies !is_todo_line(#[trigger] rest[i]) by {
                assert(rest[i] == lines[i + 1]);
            }
        }
    }
}

/// The first title line among the first `i + 1` lines: the one among the
/// first `i`, or else line `i` if it is one.
pub proof fn lemma_title_index_step(lines: Seq<Seq<char>>, i: int)
    requires
        0 <= i < lines.len(),
    ensures
        title_index(lines.take(i)) <= i,
        title_index(lines.take(i + 1)) == if title_index(lines.take(i)) < i {
            title_index(lines.take(i))
        } else if is_title_line(lines[i]) {
            i as nat
        } else {
            (i + 1) as nat
        },
        title_index(lines.take(i)) < i ==> lines.take(i + 1)[title_index(lines.take(i)) as int]
            == lines.take(i)[title_index(lines.take(i)) as int],
{
    let before = lines.take(i);
    let after = lines.take(i + 1);
    let n = title_index(before);
    lemma_title_index(before, 0);
    let m: int = if n < i {
        n as int
    } else if is_title_line(lines[i]) {
        i
    } else {
        i + 1
    };
    assert forall|j: int| 0 <= j < m implies !is_title_line(#[trigger] after[j]) by {
        if j < i {
            assert(after[j] == before[j]);
        }
    }
    if n < i {
        assert(after[n as int] == before[n as int]);
    }
    lemma_title_index(after, m);
}

/// The first to-do line among the first `i + 1` lines: the one among the
/// first `i`, or else line `i` if it is one.
pub proof fn lemma_todo_start_step(lines: Seq<Seq<char>>, i: int)
    requires
        0 <= i < lines.len(),
    ensures
        todo_start(lines.take(i)) <= i,
        todo_start(lines.take(i + 1)) == if todo_start(lines.take(i)) < i {
            todo_start(lines.take(i))
        } else if is_todo_line(lines[i]) {
            i as nat
        } else {
            (i + 1) as nat
        },
{
    let before = lines.take(i);
    let after = lines.take(i + 1);
    let n = todo_start(before);
    lemma_todo_start(before, 0);
    let m: int = if n < i {
        n as int
    } else if is_todo_line(lines[i]) {
        i
    } else {
        i + 1
    };
    assert forall|j: int| 0 <= j < m implies !is_todo_line(#[trigger] after[j]) by {
        if j < i {
            assert(after[j] == before[j]);
        }
    }
    if n < i {
        assert(after[n as int] == before[n as int]);
    }
    lemma_todo_start(after, m);
}

/// Line `i` joins the description if no to-do line stands before it and it is
/// neither a to-do line nor the title line.
pub open spec fn joins_description(lines: Seq<Seq<char>>, i: int) -> bool {
    &&& todo_start(lines.take(i)) == i
    &&& !is_todo_line(lines[i])
    &&& !(is_title_line(lines[i]) && title_index(lines.take(i)) == i)
}

/// The description lines among the first `i + 1` lines.
pub proof fn lemma_description_lines_step(lines: Seq<Seq<char>>, i: int)
    requires
        0 <= i < lines.len(),
    ensures
        description_lines(lines.take(i + 1)) == if joins_description(lines, i) {
            description_lines(lines.take(i)).push(lines[i])
        } else {
            description_lines(lines.take(i))
        },
{
    let before = lines.take(i);
    let after = lines.take(i + 1);
    lemma_title_index_step(lines, i);
    lemma_todo_start_step(lines, i);
    let ts = todo_start(before) as int;
    let ti = title_index(before) as int;
    let ts2 = todo_start(after) as int;
    let ti2 = title_index(after) as int;
    assert(after == before.push(lines[i]));
    if ts < i {
        assert(after.take(ts) == before.take(ts));
    } else if is_todo_line(lines[i]) {
        assert(after.take(i) == before);
        assert(before.take(i) == before);
    } else if is_title_line(lines[i]) && ti == i {
        assert(after.take(i + 1) == after);
        assert(before.take(i) == before);
        assert(after.remove(i) == before);
    } else {
        assert(after.take(i + 1) == after);
        assert(before.take(i) == before);
        if ti < i {
            assert(after.remove(ti) == before.remove(ti).push(lines[i]));
        }
    }
}

/// The to-dos among the first `i + 1` lines.
pub proof fn lemma_todos_of_step(lines: Seq<Seq<char>>, nesting: Nesting, i: int)
    requires
        0 <= i < lines.len(),
    ensures
        todos_of(lines.take(i + 1), nesting) == match todo_line(lines[i]) {
            Some(todo) => todos_of(lines.take(i), nesting).push(
                todo_item(todo, nesting, todos_of(lines.take(i), nesting).len(), (i + 1) as nat),
            ),
            None => todos_of(lines.take(i), nesting),
        },
{
    assert(lines.take(i + 1).drop_last() == lines.take(i));
    assert(lines.take(i + 1).last() == lines[i]);
}

} // verus!
