//! The canonical text of a document reads back as the document.

use vstd::prelude::*;
use crate::grammar::{
    description_lines, description_of, heading_text, is_title_line, is_todo_line,
    lemma_title_index, lemma_todo_start, level_of, list_prefix, parsed, title_index, todo_id,
    todo_item, todo_line, todo_start, todos_of, untitled, written, written_todo, written_todos,
    DocumentView, Nesting,
};
use crate::task::{TodoItemView, TodoState};
use crate::text::{
    is_trimmed, is_whitespace, join_lines, leading_run, leading_whitespace, lemma_leading_run,
    lemma_leading_whitespace, lines, trim, trim_end, trim_start,
};
use crate::text_proofs::{
    lemma_decimal_injective,
    lemma_join_lines_concat, lemma_join_lines_push, lemma_join_of_lines, lemma_lines_drop_first,
    lemma_lines_nonempty, lemma_lines_of_join, lemma_lines_push, lemma_lines_single, lemma_trim,
    lemma_trim_end_unfold, lemma_trim_padded, lemma_trim_start_unfold, single_line, single_lines,
};

verus! {

/// No line is a to-do line.
pub open spec fn todo_free(lines: Seq<Seq<char>>) -> bool {
    forall|i: int| 0 <= i < lines.len() ==> !is_todo_line(#[trigger] lines[i])
}

/// A to-do that its written line gives back: its text is one trimmed line,
/// and where dashes are counted its depth is at least one.
pub open spec fn canonical_todo(todo: TodoItemView, nesting: Nesting) -> bool {
    &&& is_trimmed(todo.text)
    &&& single_line(todo.text)
    &&& nesting == Nesting::PrefixCount ==> todo.level >= 1
}

/// A document that its canonical text gives back. The title is one trimmed
/// line that is not empty. The description is trimmed, and none of its lines
/// is a to-do line. Every to-do is canonical.
pub open spec fn is_canonical(document: DocumentView, nesting: Nesting) -> bool {
    &&& document.title.len() > 0
    &&& is_trimmed(document.title)
    &&& single_line(document.title)
    &&& is_trimmed(document.description)
    &&& todo_free(lines(document.description))
    &&& forall|i: int|
        0 <= i < document.todos.len() ==> canonical_todo(#[trigger] document.todos[i], nesting)
}

/// What of a to-do a document text holds: its text, its state and its depth.
pub open spec fn todo_contents(todos: Seq<TodoItemView>) -> Seq<(Seq<char>, TodoState, nat)> {
    todos.map_values(|todo: TodoItemView| (todo.text, todo.state, todo.level))
}

/// Two documents with the same title, the same description and to-dos of
/// the same texts, states and depths, in the same order.
pub open spec fn same_content(a: DocumentView, b: DocumentView) -> bool {
    &&& a.title == b.title
    &&& a.description == b.description
    &&& todo_contents(a.todos) == todo_contents(b.todos)
}

/// Which of the characters of the grammar are whitespace.
proof fn lemma_grammar_characters()
    ensures
        is_whitespace(' '),
        is_whitespace('\n'),
        !is_whitespace('-'),
        !is_whitespace('('),
        !is_whitespace(')'),
        !is_whitespace('*'),
{
}

/// Whitespace before a line does not change whether it is a to-do line.
proof fn lemma_todo_line_after_whitespace(c: char, line: Seq<char>)
    requires
        is_whitespace(c),
    ensures
        is_todo_line(seq![c] + line) == is_todo_line(line),
{
    let longer = seq![c] + line;
    assert(longer.drop_first() =~= line);
    assert(longer[0] == c);
    assert(leading_whitespace(longer) == 1 + leading_whitespace(line));
    assert(longer.skip(leading_whitespace(longer) as int) =~= line.skip(
        leading_whitespace(line) as int,
    )) by {
        lemma_leading_whitespace(line, 0);
    }
}

/// Whitespace after a to-do line leaves it a to-do line.
proof fn lemma_todo_line_before_whitespace(line: Seq<char>, c: char)
    requires
        is_whitespace(c),
        is_todo_line(line),
    ensures
        is_todo_line(line.push(c)),
{
    lemma_grammar_characters();
    let longer = line.push(c);
    let indent = leading_whitespace(line) as int;
    lemma_leading_whitespace(line, 0);
    let body = line.skip(indent);
    let dashes = leading_run(body, '-') as int;
    lemma_leading_run(body, '-', 0);
    let after = body.skip(dashes);
    let gap = leading_whitespace(after) as int;
    lemma_leading_whitespace(after, 0);
    let marker = after.skip(gap);
    assert(marker.len() >= 3 && marker[0] == '(' && marker[2] == ')');
    assert(body[0] == '-');
    assert(indent < line.len());
    assert(line[indent] == body[0]);
    // the same indentation
    assert forall|i: int| 0 <= i < indent implies is_whitespace(#[trigger] longer[i]) by {
        assert(longer[i] == line[i]);
    }
    assert(longer[indent] == line[indent]);
    lemma_leading_whitespace(longer, indent);
    let body2 = longer.skip(indent);
    assert(body2 =~= body.push(c));
    // the same dashes
    assert(dashes < body.len());
    assert forall|i: int| 0 <= i < dashes implies #[trigger] body2[i] == '-' by {
        assert(body2[i] == body[i]);
    }
    assert(body2[dashes] == body[dashes]);
    lemma_leading_run(body2, '-', dashes);
    let after2 = body2.skip(dashes);
    assert(after2 =~= after.push(c));
    // the same gap
    assert(gap < after.len());
    assert(after[gap] == marker[0]);
    assert forall|i: int| 0 <= i < gap implies is_whitespace(#[trigger] after2[i]) by {
        assert(after2[i] == after[i]);
    }
    assert(after2[gap] == after[gap]);
    lemma_leading_whitespace(after2, gap);
    let marker2 = after2.skip(gap);
    assert(marker2 =~= marker.push(c));
    assert(marker2[0] == marker[0]);
    assert(marker2[2] == marker[2]);
}

/// The empty line is neither a to-do line nor a title line.
proof fn lemma_empty_line()
    ensures
        !is_todo_line(Seq::empty()),
        !is_title_line(Seq::empty()),
{
    let empty = Seq::<char>::empty();
    assert(leading_whitespace(empty) == 0);
    assert(empty.skip(0) =~= empty);
    assert(leading_run(empty, '-') == 0);
    assert(leading_run(empty, '*') == 0);
}

/// Trimming one space and a trimmed text gives the text.
proof fn lemma_trim_after_space(text: Seq<char>)
    requires
        is_trimmed(text),
    ensures
        trim(seq![' '] + text) == text,
{
    lemma_grammar_characters();
    lemma_trim_padded(seq![' '], text, Seq::empty());
    assert(seq![' '] + text + Seq::<char>::empty() =~= seq![' '] + text);
}

/// The written line of a canonical to-do is a to-do line that holds the
/// to-do's text, state and depth.
pub proof fn lemma_written_todo_reads_back(todo: TodoItemView, nesting: Nesting)
    requires
        canonical_todo(todo, nesting),
    ensures
        todo_line(written_todo(todo, nesting)) is Some,
        todo_line(written_todo(todo, nesting)).unwrap().text == todo.text,
        TodoState::spec_decode(todo_line(written_todo(todo, nesting)).unwrap().status)
            == todo.state,
        level_of(todo_line(written_todo(todo, nesting)).unwrap(), nesting) == todo.level,
        single_line(written_todo(todo, nesting)),
{
    lemma_grammar_characters();
    todo.state.lemma_decode_encode();
    let status = todo.state.spec_to_norg_char();
    let prefix = list_prefix(todo.level, nesting);
    let tail = seq![' ', '(', status, ')', ' '] + todo.text;
    let line = written_todo(todo, nesting);
    assert(line =~= prefix + tail);
    let indent: int = match nesting {
        Nesting::Indentation => 2 * (todo.level as int),
        Nesting::PrefixCount => 0,
    };
    let dashes: int = match nesting {
        Nesting::Indentation => 1,
        Nesting::PrefixCount => todo.level as int,
    };
    assert(prefix.len() == indent + dashes);
    assert forall|i: int| 0 <= i < indent implies is_whitespace(#[trigger] line[i]) by {
        assert(line[i] == prefix[i]);
    }
    assert(line[indent] == prefix[indent]);
    lemma_leading_whitespace(line, indent);
    let body = line.skip(indent);
    assert forall|i: int| 0 <= i < dashes implies #[trigger] body[i] == '-' by {
        assert(body[i] == prefix[indent + i]);
    }
    assert(body[dashes] == tail[0]);
    lemma_leading_run(body, '-', dashes);
    let after = body.skip(dashes);
    assert(after =~= tail);
    assert(after[0] == ' ');
    assert(after[1] == '(');
    lemma_leading_whitespace(after, 1);
    let marker = after.skip(1);
    assert(marker =~= seq!['(', status, ')', ' '] + todo.text);
    assert(marker[0] == '(' && marker[1] == status && marker[2] == ')');
    assert(marker.skip(3) =~= seq![' '] + todo.text);
    lemma_trim_after_space(todo.text);
    assert(indent / 2 == todo.level || nesting == Nesting::PrefixCount);
    assert forall|i: int| 0 <= i < line.len() implies #[trigger] line[i] != '\n' by {
        if i < prefix.len() {
            assert(line[i] == prefix[i]);
        } else if i < prefix.len() + 5 {
            assert(line[i] == tail[i - prefix.len()]);
            assert(status != '\n');
        } else {
            assert(line[i] == todo.text[i - prefix.len() - 5]);
        }
    }
}

/// The heading line written for a title is a title line with that title,
/// and no to-do line.
pub proof fn lemma_written_title_reads_back(title: Seq<char>)
    requires
        title.len() > 0,
        is_trimmed(title),
    ensures
        heading_text(seq!['*', ' '] + title) == Some(title),
        is_title_line(seq!['*', ' '] + title),
        !is_todo_line(seq!['*', ' '] + title),
{
    lemma_grammar_characters();
    let line = seq!['*', ' '] + title;
    assert(line[0] == '*');
    assert(line[1] == ' ');
    lemma_leading_whitespace(line, 0);
    assert(line.skip(0) =~= line);
    lemma_leading_run(line, '*', 1);
    lemma_leading_run(line, '-', 0);
    let after = line.skip(1);
    assert(after =~= seq![' '] + title);
    assert(after[0] == ' ');
    lemma_trim_after_space(title);
}

/// A text whose lines are no to-do lines keeps that when it loses a
/// whitespace character at its start.
proof fn lemma_todo_free_drop_first(s: Seq<char>)
    requires
        s.len() > 0,
        is_whitespace(s[0]),
        todo_free(lines(s)),
    ensures
        todo_free(lines(s.drop_first())),
{
    lemma_lines_drop_first(s);
    let old_lines = lines(s);
    let new_lines = lines(s.drop_first());
    assert forall|i: int| 0 <= i < new_lines.len() implies !is_todo_line(#[trigger] new_lines[i]) by {
        if s[0] == '\n' {
            assert(new_lines[i] == old_lines[i + 1]);
        } else if i == 0 {
            let first = old_lines[0];
            assert(first[0] == s[0]) by {
                crate::text::lemma_line_end(s, 0);
            }
            lemma_todo_line_after_whitespace(s[0], first.drop_first());
            assert(seq![s[0]] + first.drop_first() =~= first);
        } else {
            assert(new_lines[i] == old_lines[i]);
        }
    }
}

/// A text whose lines are no to-do lines keeps that when it loses a
/// whitespace character at its end.
proof fn lemma_todo_free_drop_last(s: Seq<char>)
    requires
        s.len() > 0,
        is_whitespace(s.last()),
        todo_free(lines(s)),
    ensures
        todo_free(lines(s.drop_last())),
{
    let shorter = s.drop_last();
    lemma_lines_push(shorter, s.last());
    assert(shorter.push(s.last()) =~= s);
    let old_lines = lines(s);
    let new_lines = lines(shorter);
    assert forall|i: int| 0 <= i < new_lines.len() implies !is_todo_line(#[trigger] new_lines[i]) by {
        if s.last() == '\n' {
            assert(new_lines[i] == old_lines[i]);
        } else if i == new_lines.len() - 1 {
            assert(old_lines[i] == new_lines[i].push(s.last()));
            if is_todo_line(new_lines[i]) {
                lemma_todo_line_before_whitespace(new_lines[i], s.last());
            }
        } else {
            assert(new_lines[i] == old_lines[i]);
        }
    }
}

proof fn lemma_todo_free_trim_start(s: Seq<char>)
    requires
        todo_free(lines(s)),
    ensures
        todo_free(lines(trim_start(s))),
    decreases s.len(),
{
    lemma_trim_start_unfold(s);
    if s.len() > 0 && is_whitespace(s[0]) {
        lemma_todo_free_drop_first(s);
        lemma_todo_free_trim_start(s.drop_first());
    }
}

proof fn lemma_todo_free_trim_end(s: Seq<char>)
    requires
        todo_free(lines(s)),
    ensures
        todo_free(lines(trim_end(s))),
    decreases s.len(),
{
    lemma_trim_end_unfold(s);
    if s.len() > 0 && is_whitespace(s.last()) {
        lemma_todo_free_drop_last(s);
        lemma_todo_free_trim_end(s.drop_last());
    }
}

/// Trimming a text makes none of its lines a to-do line.
pub proof fn lemma_todo_free_trim(s: Seq<char>)
    requires
        todo_free(lines(s)),
    ensures
        todo_free(lines(trim(s))),
{
    lemma_todo_free_trim_start(s);
    lemma_todo_free_trim_end(trim_start(s));
}

/// The title of a document without a title line is one trimmed line.
proof fn lemma_untitled()
    ensures
        untitled().len() > 0,
        is_trimmed(untitled()),
        single_line(untitled()),
{
    reveal_strlit("Untitled Task");
    lemma_grammar_characters();
    let title = untitled();
    assert(title.len() == 13);
    assert(title[0] == 'U');
    assert(title[12] == 'k');
    assert forall|i: int| 0 <= i < title.len() implies #[trigger] title[i] != '\n' by {
        if i == 0 {
            assert(title[0] == 'U');
        } else if i == 1 {
            assert(title[1] == 'n');
        } else if i == 2 {
            assert(title[2] == 't');
        } else if i == 3 {
            assert(title[3] == 'i');
        } else if i == 4 {
            assert(title[4] == 't');
        } else if i == 5 {
            assert(title[5] == 'l');
        } else if i == 6 {
            assert(title[6] == 'e');
        } else if i == 7 {
            assert(title[7] == 'd');
        } else if i == 8 {
            assert(title[8] == ' ');
        } else if i == 9 {
            assert(title[9] == 'T');
        } else if i == 10 {
            assert(title[10] == 'a');
        } else if i == 11 {
            assert(title[11] == 's');
        } else {
            assert(title[12] == 'k');
        }
    }
}

/// A piece of a single line is a single line.
proof fn lemma_single_line_piece(s: Seq<char>, from: int, to: int)
    requires
        single_line(s),
        0 <= from <= to <= s.len(),
    ensures
        single_line(s.subrange(from, to)),
{
    assert forall|i: int| 0 <= i < to - from implies #[trigger] s.subrange(from, to)[i] != '\n' by {
        assert(s.subrange(from, to)[i] == s[from + i]);
    }
}

/// The text of a heading line that is a single line is one trimmed line.
proof fn lemma_heading_text_canonical(line: Seq<char>)
    requires
        single_line(line),
        heading_text(line) is Some,
    ensures
        is_trimmed(heading_text(line).unwrap()),
        single_line(heading_text(line).unwrap()),
{
    lemma_leading_whitespace(line, 0);
    let body = trim_start(line);
    lemma_leading_run(body, '*', 0);
    let stars = leading_run(body, '*') as int;
    let after = body.skip(stars);
    assert(after =~= line.subrange(leading_whitespace(line) + stars, line.len() as int));
    lemma_single_line_piece(line, leading_whitespace(line) + stars, line.len() as int);
    lemma_trim(after);
}

/// The text of a to-do line that is a single line is one trimmed line, and
/// the line has at least one dash.
proof fn lemma_todo_line_canonical(line: Seq<char>)
    requires
        single_line(line),
        todo_line(line) is Some,
    ensures
        is_trimmed(todo_line(line).unwrap().text),
        single_line(todo_line(line).unwrap().text),
        todo_line(line).unwrap().dashes >= 1,
{
    lemma_leading_whitespace(line, 0);
    let indent = leading_whitespace(line) as int;
    let body = line.skip(indent);
    lemma_leading_run(body, '-', 0);
    let dashes = leading_run(body, '-') as int;
    let after = body.skip(dashes);
    lemma_leading_whitespace(after, 0);
    let gap = leading_whitespace(after) as int;
    let marker = after.skip(gap);
    let tail = marker.skip(3);
    assert(tail =~= line.subrange(indent + dashes + gap + 3, line.len() as int));
    lemma_single_line_piece(line, indent + dashes + gap + 3, line.len() as int);
    lemma_trim(tail);
}

/// The to-dos read from single lines are canonical, and numbered by their
/// position.
pub proof fn lemma_todos_of_canonical(lines: Seq<Seq<char>>, nesting: Nesting)
    requires
        single_lines(lines),
    ensures
        forall|i: int|
            0 <= i < todos_of(lines, nesting).len() ==> canonical_todo(
                #[trigger] todos_of(lines, nesting)[i],
                nesting,
            ),
        forall|i: int|
            0 <= i < todos_of(lines, nesting).len() ==> (#[trigger] todos_of(lines, nesting)[i]).id
                == todo_id(i as nat),
    decreases lines.len(),
{
    if lines.len() > 0 {
        let front = lines.drop_last();
        assert(single_lines(front)) by {
            assert forall|i: int| 0 <= i < front.len() implies single_line(#[trigger] front[i]) by {
                assert(front[i] == lines[i]);
            }
        }
        lemma_todos_of_canonical(front, nesting);
        assert(single_line(lines.last()));
        if todo_line(lines.last()) is Some {
            lemma_todo_line_canonical(lines.last());
        }
    }
}

/// The description read from single lines is trimmed, and none of its lines
/// is a to-do line.
proof fn lemma_description_canonical(lines: Seq<Seq<char>>)
    requires
        single_lines(lines),
    ensures
        is_trimmed(description_of(lines)),
        todo_free(crate::text::lines(description_of(lines))),
{
    let kept = description_lines(lines);
    let joined = join_lines(kept);
    lemma_trim(joined);
    lemma_todo_start(lines, 0);
    lemma_title_index(lines, 0);
    let start = todo_start(lines) as int;
    let title = title_index(lines) as int;
    let before = lines.take(start);
    assert forall|i: int| 0 <= i < kept.len() implies !is_todo_line(#[trigger] kept[i])
        && single_line(kept[i]) by {
        if title < start && i >= title {
            assert(kept[i] == lines[i + 1]);
        } else {
            assert(kept[i] == lines[i]);
        }
    }
    if kept.len() == 0 {
        lemma_lines_single(joined);
        lemma_empty_line();
        assert(joined =~= Seq::<char>::empty());
    } else {
        lemma_lines_of_join(kept);
    }
    lemma_todo_free_trim(joined);
}

/// What is read from a text is a canonical document.
pub proof fn lemma_parsed_is_canonical(text: Seq<char>, nesting: Nesting)
    ensures
        is_canonical(parsed(text, nesting), nesting),
{
    let all = lines(text);
    lemma_lines_nonempty(text);
    lemma_title_index(all, 0);
    if title_index(all) < all.len() {
        lemma_heading_text_canonical(all[title_index(all) as int]);
    } else {
        lemma_untitled();
    }
    lemma_description_canonical(all);
    lemma_todos_of_canonical(all, nesting);
}

/// The written lines of the to-dos.
pub open spec fn todo_lines(todos: Seq<TodoItemView>, nesting: Nesting) -> Seq<Seq<char>> {
    todos.map_values(|todo: TodoItemView| written_todo(todo, nesting))
}

/// The lines of a written description block.
pub open spec fn description_block(description: Seq<char>) -> Seq<Seq<char>> {
    if description.len() > 0 {
        lines(description).push(Seq::empty())
    } else {
        Seq::empty()
    }
}

/// The lines of a written document before its to-dos: the heading line, an
/// empty line and the description block.
pub open spec fn head_lines(document: DocumentView) -> Seq<Seq<char>> {
    seq![seq!['*', ' '] + document.title, Seq::empty()] + description_block(document.description)
}

/// The lines of a written document.
pub open spec fn written_lines(document: DocumentView, nesting: Nesting) -> Seq<Seq<char>> {
    head_lines(document) + todo_lines(document.todos, nesting).push(Seq::empty())
}

/// The written to-dos are their lines and an empty last line, joined.
proof fn lemma_written_todos_joined(todos: Seq<TodoItemView>, nesting: Nesting)
    ensures
        written_todos(todos, nesting) == join_lines(todo_lines(todos, nesting).push(Seq::empty())),
    decreases todos.len(),
{
    let empty = Seq::<char>::empty();
    if todos.len() == 0 {
        assert(todo_lines(todos, nesting).push(empty) =~= seq![empty]);
    } else {
        let front = todos.drop_last();
        let line = written_todo(todos.last(), nesting);
        lemma_written_todos_joined(front, nesting);
        assert(todo_lines(todos, nesting) =~= todo_lines(front, nesting).push(line));
        lemma_join_lines_push(todo_lines(front, nesting).push(line), empty);
        lemma_join_lines_push(todo_lines(front, nesting), line);
        lemma_join_lines_push(todo_lines(front, nesting), empty);
        if front.len() == 0 {
            assert(written_todos(todos, nesting) =~= line + seq!['\n'] + empty);
        } else {
            assert(written_todos(todos, nesting) =~= join_lines(todo_lines(front, nesting))
                + seq!['\n'] + line + seq!['\n'] + empty);
        }
    }
}

/// The text of a canonical document is made of its written lines.
pub proof fn lemma_written_lines(document: DocumentView, nesting: Nesting)
    requires
        is_canonical(document, nesting),
    ensures
        lines(written(document, nesting)) == written_lines(document, nesting),
{
    let empty = Seq::<char>::empty();
    let heading = seq!['*', ' '] + document.title;
    let top = seq![heading, empty];
    let block = description_block(document.description);
    let tail = todo_lines(document.todos, nesting).push(empty);
    let all = written_lines(document, nesting);
    lemma_written_todos_joined(document.todos, nesting);
    // the lines, joined, are the text
    assert(join_lines(top) == heading + seq!['\n'] + empty) by {
        assert(top =~= seq![heading].push(empty));
        lemma_join_lines_push(seq![heading], empty);
    }
    if document.description.len() > 0 {
        lemma_join_of_lines(document.description);
        lemma_lines_nonempty(document.description);
        lemma_join_lines_push(lines(document.description), empty);
        lemma_join_lines_concat(block, tail);
        lemma_join_lines_concat(top, block + tail);
        assert(all =~= top + (block + tail));
        assert(written(document, nesting) =~= join_lines(all));
    } else {
        lemma_join_lines_concat(top, tail);
        assert(all =~= top + tail);
        assert(written(document, nesting) =~= join_lines(all));
    }
    // each of them is a single line
    lemma_lines_nonempty(document.description);
    assert forall|i: int| 0 <= i < all.len() implies single_line(#[trigger] all[i]) by {
        if i == 0 {
            assert(all[i] == heading);
            assert forall|j: int| 0 <= j < heading.len() implies #[trigger] heading[j] != '\n' by {
                if j >= 2 {
                    assert(heading[j] == document.title[j - 2]);
                }
            }
        } else if i == 1 {
            assert(all[i] == empty);
        } else if i < 2 + block.len() {
            assert(all[i] == block[i - 2]);
            if i - 2 < lines(document.description).len() {
                assert(block[i - 2] == lines(document.description)[i - 2]);
            }
        } else {
            let k = i - 2 - block.len();
            assert(all[i] == tail[k]);
            if k < document.todos.len() {
                assert(tail[k] == written_todo(document.todos[k], nesting));
                lemma_written_todo_reads_back(document.todos[k], nesting);
            }
        }
    }
    lemma_lines_of_join(all);
}

/// Lines without a to-do line hold no to-do.
proof fn lemma_todos_of_todo_free(lines: Seq<Seq<char>>, nesting: Nesting)
    requires
        todo_free(lines),
    ensures
        todos_of(lines, nesting).len() == 0,
    decreases lines.len(),
{
    if lines.len() > 0 {
        let front = lines.drop_last();
        assert(todo_free(front)) by {
            assert forall|i: int| 0 <= i < front.len() implies !is_todo_line(#[trigger] front[i]) by {
                assert(front[i] == lines[i]);
            }
        }
        lemma_todos_of_todo_free(front, nesting);
        assert(!is_todo_line(lines.last()));
    }
}

/// The to-dos read from lines without a to-do line, followed by the written
/// lines of canonical to-dos, hold what those to-dos hold.
proof fn lemma_todos_of_written(head: Seq<Seq<char>>, todos: Seq<TodoItemView>, nesting: Nesting)
    requires
        todo_free(head),
        forall|i: int| 0 <= i < todos.len() ==> canonical_todo(#[trigger] todos[i], nesting),
    ensures
        todo_contents(todos_of(head + todo_lines(todos, nesting), nesting)) == todo_contents(todos),
    decreases todos.len(),
{
    let all = head + todo_lines(todos, nesting);
    if todos.len() == 0 {
        assert(all =~= head);
        lemma_todos_of_todo_free(head, nesting);
        assert(todo_contents(todos_of(all, nesting)) =~= todo_contents(todos));
    } else {
        let front = todos.drop_last();
        let last = todos.last();
        lemma_todos_of_written(head, front, nesting);
        lemma_written_todo_reads_back(last, nesting);
        assert(all.drop_last() =~= head + todo_lines(front, nesting));
        assert(all.last() == written_todo(last, nesting));
        let earlier = todos_of(all.drop_last(), nesting);
        let read = todo_item(
            todo_line(all.last()).unwrap(),
            nesting,
            earlier.len(),
            all.len(),
        );
        assert(todos_of(all, nesting) == earlier.push(read));
        assert(todo_contents(earlier.push(read)) =~= todo_contents(earlier).push(
            (read.text, read.state, read.level),
        ));
        assert(todo_contents(todos) =~= todo_contents(front).push(
            (last.text, last.state, last.level),
        ));
    }
}

/// The head lines of a canonical document hold no to-do line, and begin with
/// the title line.
proof fn lemma_head_lines(document: DocumentView, nesting: Nesting)
    requires
        is_canonical(document, nesting),
    ensures
        todo_free(head_lines(document)),
        is_title_line(head_lines(document)[0]),
        heading_text(head_lines(document)[0]) == Some(document.title),
{
    let head = head_lines(document);
    let block = description_block(document.description);
    lemma_written_title_reads_back(document.title);
    lemma_empty_line();
    assert forall|i: int| 0 <= i < head.len() implies !is_todo_line(#[trigger] head[i]) by {
        if i >= 2 {
            assert(head[i] == block[i - 2]);
            if i - 2 < lines(document.description).len() {
                assert(block[i - 2] == lines(document.description)[i - 2]);
            }
        }
    }
}

/// The description read from the lines of a written canonical document.
proof fn lemma_description_of_written(document: DocumentView, nesting: Nesting)
    requires
        is_canonical(document, nesting),
    ensures
        description_of(written_lines(document, nesting)) == document.description,
{
    lemma_grammar_characters();
    let empty = Seq::<char>::empty();
    let feed = seq!['\n'];
    let head = head_lines(document);
    let block = description_block(document.description);
    let rows = todo_lines(document.todos, nesting);
    let all = written_lines(document, nesting);
    lemma_head_lines(document, nesting);
    lemma_empty_line();
    assert(all[0] == head[0]);
    lemma_title_index(all, 0);
    // where the to-dos start
    let start: int = if document.todos.len() > 0 {
        head.len() as int
    } else {
        all.len() as int
    };
    assert forall|i: int| 0 <= i < start implies !is_todo_line(#[trigger] all[i]) by {
        if i < head.len() {
            assert(all[i] == head[i]);
        } else {
            assert(all[i] == empty);
        }
    }
    if document.todos.len() > 0 {
        assert(all[start] == rows[0]);
        lemma_written_todo_reads_back(document.todos[0], nesting);
    }
    lemma_todo_start(all, start);
    // the lines of the description: an empty line, the block, and at most
    // one more empty line
    let kept = description_lines(all);
    let padding: Seq<Seq<char>> = if document.todos.len() > 0 {
        Seq::empty()
    } else {
        seq![empty]
    };
    assert(kept =~= seq![empty] + block + padding);
    // joined and trimmed, they are the description
    if document.description.len() > 0 {
        let inner = lines(document.description);
        lemma_lines_nonempty(document.description);
        lemma_join_of_lines(document.description);
        lemma_join_lines_push(inner, empty);
        lemma_join_lines_concat(seq![empty], block);
        assert(join_lines(seq![empty] + block) =~= feed + document.description + feed);
        if document.todos.len() > 0 {
            assert(kept =~= seq![empty] + block);
            lemma_trim_padded(feed, document.description, feed);
        } else {
            lemma_join_lines_push(seq![empty] + block, empty);
            assert(kept =~= (seq![empty] + block).push(empty));
            assert(join_lines(kept) =~= feed + document.description + (feed + feed));
            lemma_trim_padded(feed, document.description, feed + feed);
        }
    } else {
        assert(document.description =~= empty);
        if document.todos.len() > 0 {
            assert(kept =~= seq![empty]);
            lemma_trim_padded(empty, empty, empty);
            assert(empty + empty + empty =~= empty);
        } else {
            assert(kept =~= seq![empty].push(empty));
            lemma_join_lines_push(seq![empty], empty);
            assert(join_lines(kept) =~= empty + empty + feed);
            lemma_trim_padded(empty, empty, feed);
        }
    }
}

/// The canonical text of a canonical document reads back as a document of
/// the same content.
pub proof fn lemma_written_reads_back(document: DocumentView, nesting: Nesting)
    requires
        is_canonical(document, nesting),
    ensures
        same_content(parsed(written(document, nesting), nesting), document),
{
    let empty = Seq::<char>::empty();
    let head = head_lines(document);
    let rows = todo_lines(document.todos, nesting);
    let all = written_lines(document, nesting);
    lemma_written_lines(document, nesting);
    lemma_head_lines(document, nesting);
    // the title
    assert(all[0] == head[0]);
    lemma_title_index(all, 0);
    // the description
    lemma_description_of_written(document, nesting);
    // the to-dos
    lemma_todos_of_written(head, document.todos, nesting);
    lemma_empty_line();
    assert(all =~= (head + rows).push(empty));
    assert(all.drop_last() =~= head + rows);
    assert(all.last() == empty);
    assert(todos_of(all, nesting) == todos_of(head + rows, nesting));
}

/// Writing what was read from a text, and reading that again, gives the same
/// title, the same description and the same to-dos with their identifiers,
/// texts, states and depths.
pub proof fn lemma_round_trip(text: Seq<char>, nesting: Nesting)
    ensures
        same_content(
            parsed(written(parsed(text, nesting), nesting), nesting),
            parsed(text, nesting),
        ),
        forall|i: int|
            0 <= i < parsed(text, nesting).todos.len() ==> (#[trigger] parsed(
                written(parsed(text, nesting), nesting),
                nesting,
            ).todos[i]).id == parsed(text, nesting).todos[i].id,
{
    let first = parsed(text, nesting);
    let second = parsed(written(first, nesting), nesting);
    lemma_parsed_is_canonical(text, nesting);
    lemma_written_reads_back(first, nesting);
    lemma_lines_nonempty(text);
    lemma_lines_nonempty(written(first, nesting));
    lemma_todos_of_canonical(lines(text), nesting);
    lemma_todos_of_canonical(lines(written(first, nesting)), nesting);
    assert(todo_contents(second.todos).len() == todo_contents(first.todos).len());
}

/// To-dos at different positions have different identifiers.
pub proof fn lemma_todo_id_injective(i: nat, j: nat)
    requires
        todo_id(i) == todo_id(j),
    ensures
        i == j,
{
    assert(todo_id(i).skip(5) =~= crate::text::decimal(i));
    assert(todo_id(j).skip(5) =~= crate::text::decimal(j));
    lemma_decimal_injective(i, j);
}

/// No two to-dos read from a text have the same identifier.
pub proof fn lemma_todo_ids_unique(text: Seq<char>, nesting: Nesting, i: int, j: int)
    requires
        0 <= i < parsed(text, nesting).todos.len(),
        0 <= j < parsed(text, nesting).todos.len(),
        i != j,
    ensures
        parsed(text, nesting).todos[i].id != parsed(text, nesting).todos[j].id,
{
    lemma_lines_nonempty(text);
    lemma_todos_of_canonical(lines(text), nesting);
    if parsed(text, nesting).todos[i].id == parsed(text, nesting).todos[j].id {
        lemma_todo_id_injective(i as nat, j as nat);
    }
}

} // verus!
