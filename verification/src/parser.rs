//! Reading a document text into a task, and writing a task as its canonical
//! document text.

use vstd::prelude::*;
use crate::grammar::{
    description_lines, heading_text, lemma_description_lines_step, lemma_title_index_step,
    lemma_todo_start_step, lemma_todos_of_step, list_prefix, parsed, title_index, todo_id,
    todo_line, todo_start, todos_of, written, written_description, written_todo, written_todos,
    DocumentView, Nesting, TodoLine,
};
use crate::task::{todo_views, Task, TodoItem, TodoItemView, TodoState};
use crate::text::{
    chars_of, count_leading_run, count_leading_whitespace, decimal_of, is_whitespace_char,
    join_all, lines, push_all, push_str, slice_views, split_lines, string_of, trim_of,
    trim_start_of,
};

verus! {

/// A document read from its text: a title, a description and to-dos.
#[derive(Debug, Clone)]
pub struct Document {
    pub title: String,
    pub description: String,
    pub todos: Vec<TodoItem>,
}

impl View for Document {
    type V = DocumentView;

    open spec fn view(&self) -> DocumentView {
        DocumentView {
            title: self.title@,
            description: self.description@,
            todos: todo_views(self.todos@),
        }
    }
}

impl Task {
    /// The part of a task that its document holds.
    pub open spec fn document(&self) -> DocumentView {
        DocumentView { title: self.title@, description: self.description@, todos: todo_views(self.todos@) }
    }
}

/// A to-do line taken apart.
struct ReadTodo<'a> {
    indent: usize,
    dashes: usize,
    status: char,
    text: &'a [char],
}

impl<'a> ReadTodo<'a> {
    spec fn line(&self) -> TodoLine {
        TodoLine {
            indent: self.indent as nat,
            dashes: self.dashes as nat,
            status: self.status,
            text: self.text@,
        }
    }
}

/// Takes a to-do line apart, if `line` is one.
fn read_todo_line<'a>(line: &'a [char]) -> (read: Option<ReadTodo<'a>>)
    ensures
        match read {
            Some(todo) => todo_line(line@) == Some(todo.line()),
            None => todo_line(line@) is None,
        },
{
    let indent: usize = count_leading_whitespace(line);
    let body = &line[indent..line.len()];
    proof {
        assert(body@ == line@.skip(indent as int));
    }
    let dashes: usize = count_leading_run(body, '-');
    let after = &body[dashes..body.len()];
    proof {
        assert(after@ == body@.skip(dashes as int));
    }
    let marker = trim_start_of(after);
    if dashes >= 1 && marker.len() >= 3 && marker[0] == '(' && marker[2] == ')' {
        let tail = &marker[3..marker.len()];
        proof {
            assert(tail@ == marker@.skip(3));
        }
        Some(ReadTodo { indent, dashes, status: marker[1], text: trim_of(tail) })
    } else {
        None
    }
}

/// The text of a heading line, if `line` is one.
fn read_heading<'a>(line: &'a [char]) -> (text: Option<&'a [char]>)
    ensures
        match text {
            Some(text) => heading_text(line@) == Some(text@),
            None => heading_text(line@) is None,
        },
{
    let body = trim_start_of(line);
    let stars: usize = count_leading_run(body, '*');
    let after = &body[stars..body.len()];
    proof {
        assert(after@ == body@.skip(stars as int));
    }
    if stars >= 1 && (after.len() == 0 || is_whitespace_char(after[0])) {
        Some(trim_of(after))
    } else {
        None
    }
}

/// The identifier of the to-do at position `n`.
pub(crate) fn make_todo_id(n: usize) -> (id: String)
    ensures
        id@ == todo_id(n as nat),
{
    let mut id: Vec<char> = Vec::new();
    id.push('t');
    id.push('o');
    id.push('d');
    id.push('o');
    id.push('_');
    let digits = decimal_of(n);
    push_all(&mut id, digits.as_slice());
    proof {
        assert(id@ == todo_id(n as nat));
    }
    string_of(id.as_slice())
}

/// The parser and writer of task documents.
pub struct NorgParser;

impl NorgParser {
    /// Reads a document text.
    pub fn parse_document(content: &str, nesting: Nesting) -> (document: Document)
        ensures
            document@ == parsed(content@, nesting),
    {
        let chars = chars_of(content);
        let lines = split_lines(chars.as_slice());
        let ghost all = slice_views(lines@);
        let mut title: Option<&[char]> = None;
        let mut seen_todo = false;
        let mut description: Vec<&[char]> = Vec::new();
        let mut todos: Vec<TodoItem> = Vec::new();
        let mut i: usize = 0;
        proof {
            assert(all.take(0) == Seq::<Seq<char>>::empty());
            assert(description_lines(all.take(0)) == Seq::<Seq<char>>::empty());
            assert(slice_views(description@) == Seq::<Seq<char>>::empty());
            assert(todo_views(todos@) == Seq::<TodoItemView>::empty());
        }
        while i < lines.len()
            invariant
                i <= lines@.len(),
                all == slice_views(lines@),
                all == crate::text::lines(content@),
                match title {
                    Some(text) => title_index(all.take(i as int)) < i && text@ == heading_text(
                        all.take(i as int)[title_index(all.take(i as int)) as int],
                    ).unwrap(),
                    None => title_index(all.take(i as int)) == i,
                },
                seen_todo <==> todo_start(all.take(i as int)) < i,
                todo_start(all.take(i as int)) <= i,
                slice_views(description@) == description_lines(all.take(i as int)),
                todo_views(todos@) == todos_of(all.take(i as int), nesting),
            decreases lines@.len() - i,
        {
            let line = lines[i];
            proof {
                assert(all[i as int] == line@);
                lemma_title_index_step(all, i as int);
                lemma_todo_start_step(all, i as int);
                lemma_description_lines_step(all, i as int);
                lemma_todos_of_step(all, nesting, i as int);
            }
            let ghost earlier_todos = todo_views(todos@);
            let ghost earlier_description = slice_views(description@);
            match read_todo_line(line) {
                Some(todo) => {
                    let level: usize = match nesting {
                        Nesting::Indentation => todo.indent / 2,
                        Nesting::PrefixCount => todo.dashes,
                    };
                    let item = TodoItem {
                        id: make_todo_id(todos.len()),
                        text: string_of(todo.text),
                        state: TodoState::decode(todo.status),
                        level,
                        line_number: i + 1,
                    };
                    todos.push(item);
                    seen_todo = true;
                    proof {
                        assert(todo_views(todos@) =~= earlier_todos.push(item@));
                    }
                },
                None => {
                    let heading = read_heading(line);
                    let is_title = match heading {
                        Some(text) => text.len() > 0,
                        None => false,
                    };
                    if is_title && title.is_none() {
                        title = heading;
                    } else if !seen_todo {
                        description.push(line);
                        proof {
                            assert(slice_views(description@) =~= earlier_description.push(line@));
                        }
                    }
                },
            }
            i += 1;
        }
        proof {
            assert(all.take(i as int) == all);
        }
        let title_text = match title {
            Some(text) => string_of(text),
            None => "Untitled Task".to_owned(),
        };
        let joined = join_all(&description);
        Document {
            title: title_text,
            description: string_of(trim_of(joined.as_slice())),
            todos,
        }
    }

    /// Reads the document at `file_path`, whose text is `content`, into a
    /// fresh task. The nesting depth of a to-do is read from its indentation.
    /// Every text is a document: what is missing is filled in, and what does
    /// not fit is dropped.
    pub fn parse_task_file(file_path: &str, content: &str) -> (task: Task)
        ensures
            task.document() == parsed(content@, Nesting::Indentation),
            task.file_path@ == file_path@,
            task.relations@.len() == 0,
            task.due_date is None,
            task.created_at == task.updated_at,
            task.id@.len() == 36,
    {
        Self::parse_task_file_with(file_path, content, Nesting::Indentation)
    }

    /// Reads the document at `file_path`, whose text is `content`, into a
    /// fresh task, with the nesting depth of a to-do read as `nesting` says.
    pub fn parse_task_file_with(file_path: &str, content: &str, nesting: Nesting) -> (task: Task)
        ensures
            task.document() == parsed(content@, nesting),
            task.file_path@ == file_path@,
            task.relations@.len() == 0,
            task.due_date is None,
            task.created_at == task.updated_at,
            task.id@.len() == 36,
    {
        let document = Self::parse_document(content, nesting);
        let mut task = Task::new(document.title, file_path.to_owned());
        task.description = document.description;
        task.todos = document.todos;
        task
    }

    /// The canonical text of a document.
    pub fn write_document(
        title: &str,
        description: &str,
        todos: &Vec<TodoItem>,
        nesting: Nesting,
    ) -> (text: String)
        ensures
            text@ == written(
                DocumentView { title: title@, description: description@, todos: todo_views(todos@) },
                nesting,
            ),
    {
        let mut buffer: Vec<char> = Vec::new();
        buffer.push('*');
        buffer.push(' ');
        push_str(&mut buffer, title);
        buffer.push('\n');
        buffer.push('\n');
        let description_chars = chars_of(description);
        if description_chars.len() > 0 {
            push_all(&mut buffer, description_chars.as_slice());
            buffer.push('\n');
            buffer.push('\n');
        }
        let ghost head = seq!['*', ' '] + title@ + seq!['\n', '\n'] + written_description(
            description@,
        );
        proof {
            assert(buffer@ =~= head);
            assert(todo_views(todos@).take(0) == Seq::<TodoItemView>::empty());
            assert(head + written_todos(todo_views(todos@).take(0), nesting) == head);
        }
        let mut i: usize = 0;
        while i < todos.len()
            invariant
                i <= todos@.len(),
                buffer@ == head + written_todos(todo_views(todos@).take(i as int), nesting),
            decreases todos@.len() - i,
        {
            let ghost before = buffer@;
            let ghost views = todo_views(todos@);
            let todo = &todos[i];
            write_list_prefix(&mut buffer, todo.level, nesting);
            buffer.push(' ');
            buffer.push('(');
            buffer.push(todo.state.to_norg_char());
            buffer.push(')');
            buffer.push(' ');
            push_str(&mut buffer, todo.text.as_str());
            buffer.push('\n');
            proof {
                assert(views[i as int] == todo@);
                assert(views.take(i + 1).drop_last() == views.take(i as int));
                assert(views.take(i + 1).last() == todo@);
                assert(buffer@ =~= before + written_todo(todo@, nesting) + seq!['\n']);
                assert(head + (written_todos(views.take(i as int), nesting) + written_todo(
                    todo@,
                    nesting,
                ) + seq!['\n']) =~= before + written_todo(todo@, nesting) + seq!['\n']);
            }
            i += 1;
        }
        proof {
            assert(todo_views(todos@).take(i as int) == todo_views(todos@));
        }
        string_of(buffer.as_slice())
    }

    /// The text to store at `task.file_path`: the canonical text of the task's
    /// document, nested by indentation.
    pub fn write_task_file(task: &Task) -> (content: String)
        ensures
            content@ == written(task.document(), Nesting::Indentation),
    {
        Self::write_task_file_with(task, Nesting::Indentation)
    }

    /// The canonical text of the task's document, nested as `nesting` says.
    pub fn write_task_file_with(task: &Task, nesting: Nesting) -> (content: String)
        ensures
            content@ == written(task.document(), nesting),
    {
        Self::write_document(task.title.as_str(), task.description.as_str(), &task.todos, nesting)
    }
}

/// Appends what stands before the status marker of a to-do of depth `level`.
fn write_list_prefix(buffer: &mut Vec<char>, level: usize, nesting: Nesting)
    ensures
        final(buffer)@ == old(buffer)@ + list_prefix(level as nat, nesting),
{
    match nesting {
        Nesting::Indentation => {
            let mut k: usize = 0;
            while k < level
                invariant
                    k <= level,
                    buffer@ == old(buffer)@ + Seq::new(2 * (k as nat), |i: int| ' '),
                decreases level - k,
            {
                buffer.push(' ');
                buffer.push(' ');
                proof {
                    assert(old(buffer)@ + Seq::new(2 * ((k + 1) as nat), |i: int| ' ') =~= (old(
                        buffer,
                    )@ + Seq::new(2 * (k as nat), |i: int| ' ')).push(' ').push(' '));
                }
                k += 1;
            }
            buffer.push('-');
            proof {
                assert(buffer@ =~= old(buffer)@ + list_prefix(level as nat, nesting));
            }
        },
        Nesting::PrefixCount => {
            let dashes: usize = if level == 0 {
                1
            } else {
                level
            };
            let mut k: usize = 0;
            while k < dashes
                invariant
                    k <= dashes,
                    buffer@ == old(buffer)@ + Seq::new(k as nat, |i: int| '-'),
                decreases dashes - k,
            {
                buffer.push('-');
                proof {
                    assert(old(buffer)@ + Seq::new((k + 1) as nat, |i: int| '-') =~= (old(buffer)@
                        + Seq::new(k as nat, |i: int| '-')).push('-'));
                }
                k += 1;
            }
        },
    }
}

} // verus!
