//! The task store: the tasks in memory, and what is to be written to or
//! removed from the documents that back them.
//!
//! The store touches no file. Where a document has to be written, the store
//! hands out its path and its text.

use vstd::prelude::*;
use crate::grammar::{parsed, written, DocumentView, Nesting};
use crate::parser::NorgParser;
use crate::syntax::{tree_document, NorgAST};
use crate::task::{KanbanCategory, Task, TodoItem, TodoItemView, TodoState};
use crate::text::{
    chars_of, contains, contains_chars, count_leading_run, count_trailing_run, leading_run,
    lowercase, push_all, push_str, same_text, string_of, to_lowercase, trailing_run,
};

verus! {

/// What a task file holds, as far as it could be read.
#[derive(Debug)]
pub enum TaskSource {
    /// The text of the document, to be read by the line grammar.
    Text(String),
    /// The syntax tree that a Norg parser made of the document.
    Tree(Vec<NorgAST>),
    /// The file could not be read, or its text could not be parsed.
    Failed,
}

/// A file of the task directory.
#[derive(Debug)]
pub struct TaskFile {
    pub path: String,
    pub source: TaskSource,
}

/// A document to be written: where, and what.
#[derive(Debug, Clone)]
pub struct FileWrite {
    pub path: String,
    pub content: String,
}

/// The tasks of a store, grouped by their workflow column.
#[derive(Debug)]
pub struct TasksByCategory<'a> {
    pub yet_to_be_done: Vec<&'a Task>,
    pub in_progress: Vec<&'a Task>,
    pub completed: Vec<&'a Task>,
}

/// The tasks in memory, in the order in which they were loaded or created.
pub struct TaskManager {
    tasks: Vec<Task>,
    data_dir: String,
    nesting: Nesting,
}

/// The characters that a file name keeps: ASCII letters, digits, `-` and `_`.
pub open spec fn is_file_name_char(c: char) -> bool {
    let n = c as u32;
    ||| 0x61 <= n <= 0x7a
    ||| 0x41 <= n <= 0x5a
    ||| 0x30 <= n <= 0x39
    ||| c == '-'
    ||| c == '_'
}

/// A character as it stands in a file name.
pub open spec fn safe_char(c: char) -> char {
    if is_file_name_char(c) {
        c
    } else {
        '_'
    }
}

/// `s` without the characters `c` around it.
pub open spec fn strip(s: Seq<char>, c: char) -> Seq<char> {
    let body = s.skip(leading_run(s, c) as int);
    body.take(body.len() - trailing_run(body, c))
}

/// The file name made of a title: every character that a file name does not
/// keep becomes `_`, and the `_` around the name are taken away.
pub open spec fn sanitized(title: Seq<char>) -> Seq<char> {
    strip(title.map_values(|c: char| safe_char(c)), '_')
}

/// The extension of a task file.
pub open spec fn task_extension() -> Seq<char> {
    seq!['.', 'n', 'o', 'r', 'g']
}

/// A file name with the extension of a task file: it ends with `.norg`, and
/// something stands before that.
pub open spec fn has_task_extension(name: Seq<char>) -> bool {
    name.len() > 5 && name.subrange(name.len() - 5, name.len() as int) == task_extension()
}

/// The path of the file `name` in the directory `dir`.
pub open spec fn joined_path(dir: Seq<char>, name: Seq<char>) -> Seq<char> {
    if dir.len() == 0 || dir.last() == '/' {
        dir + name
    } else {
        dir + seq!['/'] + name
    }
}

/// The path of the document of a new task with the given title.
pub open spec fn new_task_path(dir: Seq<char>, title: Seq<char>) -> Seq<char> {
    joined_path(dir, sanitized(title) + task_extension())
}

/// The index of the first task with the given identifier, or the number of
/// tasks if there is none.
pub open spec fn index_of_id(tasks: Seq<Task>, id: Seq<char>) -> nat
    decreases tasks.len(),
{
    if tasks.len() > 0 && tasks[0].id@ != id {
        1 + index_of_id(tasks.drop_first(), id)
    } else {
        0
    }
}

/// What singles out `index_of_id(tasks, id)`.
pub proof fn lemma_index_of_id(tasks: Seq<Task>, id: Seq<char>, n: int)
    ensures
        index_of_id(tasks, id) <= tasks.len(),
        forall|i: int| 0 <= i < index_of_id(tasks, id) ==> (#[trigger] tasks[i]).id@ != id,
        index_of_id(tasks, id) < tasks.len() ==> tasks[index_of_id(tasks, id) as int].id@ == id,
        (0 <= n <= tasks.len() && (forall|i: int| 0 <= i < n ==> (#[trigger] tasks[i]).id@ != id)
            && (n < tasks.len() ==> tasks[n].id@ == id)) ==> index_of_id(tasks, id) == n,
    decreases tasks.len(),
{
    if tasks.len() > 0 && tasks[0].id@ != id {
        let rest = tasks.drop_first();
        lemma_index_of_id(rest, id, n - 1);
        assert forall|i: int| 0 <= i < index_of_id(tasks, id) implies (#[trigger] tasks[i]).id@
            != id by {
            if i > 0 {
                assert(tasks[i] == rest[i - 1]);
            }
        }
        if 0 <= n <= tasks.len() && (forall|i: int| 0 <= i < n ==> (#[trigger] tasks[i]).id@ != id)
            && (n < tasks.len() ==> tasks[n].id@ == id) {
            assert(n >= 1);
            assert forall|i: int| 0 <= i < n - 1 implies (#[trigger] rest[i]).id@ != id by {
                assert(rest[i] == tasks[i + 1]);
            }
        }
    }
}

/// The document that a source gives, if it gives one.
pub open spec fn source_document(source: TaskSource, nesting: Nesting) -> Option<DocumentView> {
    match source {
        TaskSource::Text(text) => Some(parsed(text@, nesting)),
        TaskSource::Tree(tree) => Some(tree_document(tree@)),
        TaskSource::Failed => None,
    }
}

/// The paths and documents of the files that give a document, in the order
/// of the files.
pub open spec fn loaded(files: Seq<TaskFile>, nesting: Nesting) -> Seq<(Seq<char>, DocumentView)>
    decreases files.len(),
{
    if files.len() == 0 {
        Seq::empty()
    } else {
        let earlier = loaded(files.drop_last(), nesting);
        match source_document(files.last().source, nesting) {
            Some(document) => earlier.push((files.last().path@, document)),
            None => earlier,
        }
    }
}

/// The paths and documents of the tasks.
pub open spec fn task_documents(tasks: Seq<Task>) -> Seq<(Seq<char>, DocumentView)> {
    tasks.map_values(|task: Task| (task.file_path@, task.document()))
}

/// A to-do whose text holds `needle` when put in lower case.
pub open spec fn some_todo_contains(todos: Seq<TodoItem>, needle: Seq<char>) -> bool {
    exists|i: int| 0 <= i < todos.len() && contains(lowercase(#[trigger] todos[i].text@), needle)
}

/// The title, the description or the text of a to-do holds `needle` when put
/// in lower case.
pub open spec fn task_matches(task: Task, needle: Seq<char>) -> bool {
    ||| contains(lowercase(task.title@), needle)
    ||| contains(lowercase(task.description@), needle)
    ||| some_todo_contains(task.todos@, needle)
}

/// The tasks that match `needle`.
pub open spec fn matching(needle: Seq<char>) -> spec_fn(Task) -> bool {
    |task: Task| task_matches(task, needle)
}

/// Two queries with the same lower-case form find the same tasks: the
/// search does not tell letter cases apart.
pub proof fn lemma_search_ignores_case(tasks: Seq<Task>, query: Seq<char>, other: Seq<char>)
    ensures
        lowercase(query) == lowercase(other) ==> tasks.filter(matching(lowercase(query)))
            == tasks.filter(matching(lowercase(other))),
{
}

/// The tasks of the workflow column `category`.
pub open spec fn in_category(category: KanbanCategory) -> spec_fn(Task) -> bool {
    |task: Task| task.spec_kanban_category() == category
}

/// The to-dos made of the given texts: not done, not nested, numbered in
/// their order.
pub open spec fn new_todos(texts: Seq<String>) -> Seq<TodoItemView> {
    Seq::new(
        texts.len(),
        |i: int|
            TodoItemView {
                id: crate::grammar::todo_id(i as nat),
                text: texts[i]@,
                state: TodoState::Undone,
                level: 0,
                line_number: 0,
            },
    )
}

/// `task` with the state of the to-do at `index` toggled.
pub open spec fn with_toggled(task: Task, index: int, toggled: Task) -> bool {
    &&& toggled.id == task.id
    &&& toggled.title == task.title
    &&& toggled.description == task.description
    &&& toggled.relations == task.relations
    &&& toggled.file_path == task.file_path
    &&& toggled.due_date == task.due_date
    &&& toggled.created_at == task.created_at
    &&& toggled.updated_at == task.updated_at
    &&& toggled.todos@.len() == task.todos@.len()
    &&& forall|k: int|
        0 <= k < task.todos@.len() && k != index ==> #[trigger] toggled.todos@[k] == task.todos@[k]
    &&& toggled.todos@[index].id == task.todos@[index].id
    &&& toggled.todos@[index].text == task.todos@[index].text
    &&& toggled.todos@[index].level == task.todos@[index].level
    &&& toggled.todos@[index].line_number == task.todos@[index].line_number
    &&& toggled.todos@[index].state == task.todos@[index].state.spec_toggled()
}

/// Whether `c` is kept in a file name.
fn is_kept(c: char) -> (kept: bool)
    ensures
        kept == is_file_name_char(c),
{
    let n: u32 = c as u32;
    (0x61 <= n && n <= 0x7a) || (0x41 <= n && n <= 0x5a) || (0x30 <= n && n <= 0x39) || c == '-'
        || c == '_'
}

/// Appends the path of the file `name` in the directory `dir`.
fn join_path(dir: &str, name: &[char]) -> (path: String)
    ensures
        path@ == joined_path(dir@, name@),
{
    let mut buffer = chars_of(dir);
    let len: usize = buffer.len();
    if len > 0 && buffer[len - 1] != '/' {
        buffer.push('/');
    }
    push_all(&mut buffer, name);
    string_of(buffer.as_slice())
}

/// The directory of the documents where the platform names none: the
/// directory `.local/share/norgdo` under the home directory.
pub open spec fn fallback_data_dir(home: Seq<char>) -> Seq<char> {
    joined_path(
        joined_path(joined_path(home, seq!['.', 'l', 'o', 'c', 'a', 'l']), seq!['s', 'h', 'a', 'r', 'e']),
        seq!['n', 'o', 'r', 'g', 'd', 'o'],
    )
}

impl<'a> TasksByCategory<'a> {
    pub open spec fn spec_get(&self, category: &KanbanCategory) -> &Vec<&'a Task> {
        match *category {
            KanbanCategory::YetToBeDone => &self.yet_to_be_done,
            KanbanCategory::InProgress => &self.in_progress,
            KanbanCategory::Completed => &self.completed,
        }
    }

    /// The tasks of a workflow column.
    #[verifier::when_used_as_spec(spec_get)]
    pub fn get(&self, category: &KanbanCategory) -> (tasks: &Vec<&'a Task>)
        ensures
            tasks == self.spec_get(category),
    {
        match *category {
            KanbanCategory::YetToBeDone => &self.yet_to_be_done,
            KanbanCategory::InProgress => &self.in_progress,
            KanbanCategory::Completed => &self.completed,
        }
    }
}

impl TaskManager {
    /// The tasks in memory.
    pub closed spec fn spec_tasks(&self) -> Seq<Task> {
        self.tasks@
    }

    /// The directory of the documents.
    pub closed spec fn spec_data_dir(&self) -> Seq<char> {
        self.data_dir@
    }

    /// How the documents nest their to-dos.
    pub closed spec fn spec_nesting(&self) -> Nesting {
        self.nesting
    }

    /// A store without tasks, for the documents in `data_dir`.
    pub fn new(data_dir: String, nesting: Nesting) -> (manager: TaskManager)
        ensures
            manager.spec_tasks().len() == 0,
            manager.spec_data_dir() == data_dir@,
            manager.spec_nesting() == nesting,
    {
        TaskManager { tasks: Vec::new(), data_dir, nesting }
    }

    /// The directory of the documents: the data directory that the platform
    /// names for this program, or else the fallback under the home directory.
    /// There is none if neither directory is known.
    pub fn get_data_directory(project_dir: Option<String>, home: Option<String>) -> (dir: Option<
        String,
    >)
        ensures
            match (project_dir, home) {
                (Some(project_dir), _) => dir is Some && dir.unwrap()@ == project_dir@,
                (None, Some(home)) => dir is Some && dir.unwrap()@ == fallback_data_dir(home@),
                (None, None) => dir is None,
            },
    {
        match project_dir {
            Some(project_dir) => Some(project_dir),
            None => match home {
                Some(home) => {
                    let local = join_path(home.as_str(), chars_of(".local").as_slice());
                    let share = join_path(local.as_str(), chars_of("share").as_slice());
                    proof {
                        reveal_strlit(".local");
                        reveal_strlit("share");
                        reveal_strlit("norgdo");
                        assert(".local"@ =~= seq!['.', 'l', 'o', 'c', 'a', 'l']);
                        assert("share"@ =~= seq!['s', 'h', 'a', 'r', 'e']);
                        assert("norgdo"@ =~= seq!['n', 'o', 'r', 'g', 'd', 'o']);
                    }
                    Some(join_path(share.as_str(), chars_of("norgdo").as_slice()))
                },
                None => None,
            },
        }
    }

    /// The directory of the documents.
    pub fn data_dir(&self) -> (dir: &str)
        ensures
            dir@ == self.spec_data_dir(),
    {
        self.data_dir.as_str()
    }

    /// How the documents nest their to-dos.
    pub fn nesting(&self) -> (nesting: Nesting)
        ensures
            nesting == self.spec_nesting(),
    {
        self.nesting
    }

    /// Whether a file of this name, given without its directory, is a task
    /// file.
    pub fn is_task_file(name: &str) -> (b: bool)
        ensures
            b == has_task_extension(name@),
    {
        let chars = chars_of(name);
        let len: usize = chars.len();
        if len <= 5 {
            return false;
        }
        let b = chars[len - 5] == '.' && chars[len - 4] == 'n' && chars[len - 3] == 'o' && chars[len
            - 2] == 'r' && chars[len - 1] == 'g';
        proof {
            let tail = name@.subrange(len - 5, len as int);
            if b {
                assert(tail =~= task_extension());
            } else {
                assert(tail[0] == name@[len - 5]);
                assert(tail[1] == name@[len - 4]);
                assert(tail[2] == name@[len - 3]);
                assert(tail[3] == name@[len - 2]);
                assert(tail[4] == name@[len - 1]);
            }
        }
        b
    }

    /// The file name made of a title.
    pub fn sanitize_filename(title: &str) -> (name: String)
        ensures
            name@ == sanitized(title@),
    {
        let chars = chars_of(title);
        let mut mapped: Vec<char> = Vec::new();
        let mut i: usize = 0;
        while i < chars.len()
            invariant
                i <= chars@.len(),
                mapped@ == chars@.take(i as int).map_values(|c: char| safe_char(c)),
            decreases chars@.len() - i,
        {
            let c = chars[i];
            let ghost before = mapped@;
            if is_kept(c) {
                mapped.push(c);
            } else {
                mapped.push('_');
            }
            proof {
                assert(chars@.take(i + 1) =~= chars@.take(i as int).push(c));
                assert(chars@.take(i + 1).map_values(|c: char| safe_char(c)) =~= before.push(
                    safe_char(c),
                ));
            }
            i += 1;
        }
        proof {
            assert(chars@.take(i as int) =~= chars@);
        }
        let from: usize = count_leading_run(mapped.as_slice(), '_');
        let body = &mapped.as_slice()[from..mapped.len()];
        proof {
            assert(body@ =~= mapped@.skip(from as int));
        }
        let cut: usize = count_trailing_run(body, '_');
        let kept = &body[0..body.len() - cut];
        proof {
            assert(kept@ =~= body@.take(body@.len() - cut));
        }
        string_of(kept)
    }

    /// The tasks in memory.
    pub fn get_tasks(&self) -> (tasks: &[Task])
        ensures
            tasks@ == self.spec_tasks(),
    {
        self.tasks.as_slice()
    }

    /// The index of the first task with the given identifier.
    pub fn find_task(&self, task_id: &str) -> (index: Option<usize>)
        ensures
            match index {
                Some(i) => i < self.spec_tasks().len() && i == index_of_id(
                    self.spec_tasks(),
                    task_id@,
                ),
                None => index_of_id(self.spec_tasks(), task_id@) == self.spec_tasks().len(),
            },
    {
        let mut i: usize = 0;
        while i < self.tasks.len()
            invariant
                i <= self.tasks@.len(),
                forall|j: int| 0 <= j < i ==> (#[trigger] self.tasks@[j]).id@ != task_id@,
            decreases self.tasks@.len() - i,
        {
            if same_text(self.tasks[i].id.as_str(), task_id) {
                proof {
                    lemma_index_of_id(self.tasks@, task_id@, i as int);
                }
                return Some(i);
            }
            i += 1;
        }
        proof {
            lemma_index_of_id(self.tasks@, task_id@, i as int);
        }
        None
    }

    /// The first task with the given identifier.
    pub fn get_task(&self, task_id: &str) -> (task: Option<&Task>)
        ensures
            match task {
                Some(task) => index_of_id(self.spec_tasks(), task_id@) < self.spec_tasks().len()
                    && *task == self.spec_tasks()[index_of_id(self.spec_tasks(), task_id@) as int],
                None => index_of_id(self.spec_tasks(), task_id@) == self.spec_tasks().len(),
            },
    {
        match self.find_task(task_id) {
            Some(i) => Some(&self.tasks[i]),
            None => None,
        }
    }

    /// The first task with the given identifier, to be changed in place.
    pub fn get_task_mut(&mut self, task_id: &str) -> (task: Option<&mut Task>)
        ensures
            final(self).spec_data_dir() == old(self).spec_data_dir(),
            final(self).spec_nesting() == old(self).spec_nesting(),
            match task {
                Some(task) => {
                    let i = index_of_id(old(self).spec_tasks(), task_id@) as int;
                    &&& i < old(self).spec_tasks().len()
                    &&& *task == old(self).spec_tasks()[i]
                    &&& final(self).spec_tasks() == old(self).spec_tasks().update(i, *final(task))
                },
                None => {
                    &&& index_of_id(old(self).spec_tasks(), task_id@) == old(self).spec_tasks().len()
                    &&& final(self).spec_tasks() == old(self).spec_tasks()
                },
            },
    {
        match self.find_task(task_id) {
            Some(i) => Some(&mut self.tasks[i]),
            None => None,
        }
    }

    /// Replaces the tasks in memory by those that the files give. A file
    /// that gives no document is passed over, and the others are still
    /// loaded. A text is read with the nesting of the store. Every task gets
    /// a fresh identifier of 36 characters.
    pub fn load_tasks(&mut self, files: &Vec<TaskFile>)
        ensures
            task_documents(final(self).spec_tasks()) == loaded(files@, old(self).spec_nesting()),
            forall|i: int|
                0 <= i < final(self).spec_tasks().len() ==> {
                    &&& (#[trigger] final(self).spec_tasks()[i]).relations@.len() == 0
                    &&& final(self).spec_tasks()[i].id@.len() == 36
                    &&& final(self).spec_tasks()[i].due_date is None
                    &&& final(self).spec_tasks()[i].created_at
                        == final(self).spec_tasks()[i].updated_at
                },
            final(self).spec_data_dir() == old(self).spec_data_dir(),
            final(self).spec_nesting() == old(self).spec_nesting(),
    {
        self.tasks = Vec::new();
        let mut i: usize = 0;
        proof {
            assert(files@.take(0) =~= Seq::<TaskFile>::empty());
            assert(task_documents(self.tasks@) =~= loaded(files@.take(0), self.nesting));
        }
        while i < files.len()
            invariant
                i <= files@.len(),
                self.data_dir@ == old(self).data_dir@,
                self.nesting == old(self).nesting,
                task_documents(self.tasks@) == loaded(files@.take(i as int), self.nesting),
                forall|k: int|
                    0 <= k < self.tasks@.len() ==> {
                        &&& (#[trigger] self.tasks@[k]).relations@.len() == 0
                        &&& self.tasks@[k].id@.len() == 36
                        &&& self.tasks@[k].due_date is None
                        &&& self.tasks@[k].created_at == self.tasks@[k].updated_at
                    },
            decreases files@.len() - i,
        {
            let file = &files[i];
            let ghost before = self.tasks@;
            proof {
                assert(files@.take(i + 1).drop_last() =~= files@.take(i as int));
                assert(files@.take(i + 1).last() == files@[i as int]);
            }
            match &file.source {
                TaskSource::Text(text) => {
                    let task = NorgParser::parse_task_file_with(
                        file.path.as_str(),
                        text.as_str(),
                        self.nesting,
                    );
                    self.tasks.push(task);
                    proof {
                        assert(task_documents(self.tasks@) =~= task_documents(before).push(
                            (task.file_path@, task.document()),
                        ));
                    }
                },
                TaskSource::Tree(tree) => {
                    let task = NorgParser::parse_task_tree(file.path.as_str(), tree);
                    self.tasks.push(task);
                    proof {
                        assert(task_documents(self.tasks@) =~= task_documents(before).push(
                            (task.file_path@, task.document()),
                        ));
                    }
                },
                TaskSource::Failed => {},
            }
            i += 1;
        }
        proof {
            assert(files@.take(i as int) =~= files@);
        }
    }

    /// Makes a new task with the given title, and the document to write for
    /// it. The document lies in the directory of the store, under the file
    /// name made of the title. The store stays as it is: the task joins it
    /// through `add_task`, once its document is written.
    pub fn create_task(&self, title: String) -> (created: (Task, FileWrite))
        ensures
            created.0.title@ == title@,
            created.0.description@.len() == 0,
            created.0.todos@.len() == 0,
            created.0.relations@.len() == 0,
            created.0.due_date is None,
            created.0.created_at == created.0.updated_at,
            created.0.id@.len() == 36,
            created.0.file_path@ == new_task_path(self.spec_data_dir(), title@),
            created.1.path@ == created.0.file_path@,
            created.1.content@ == written(created.0.document(), self.spec_nesting()),
    {
        let created = self.create_task_with_details(title, String::new(), Vec::new());
        proof {
            assert(crate::task::todo_views(created.0.todos@).len() == 0);
        }
        created
    }

    /// Makes a new task with the given title, description and to-dos, and
    /// the document to write for it. The to-dos are not done and not nested.
    /// The store stays as it is: the task joins it through `add_task`, once
    /// its document is written.
    pub fn create_task_with_details(
        &self,
        title: String,
        description: String,
        todos: Vec<String>,
    ) -> (created: (Task, FileWrite))
        ensures
            created.0.title@ == title@,
            created.0.description@ == description@,
            crate::task::todo_views(created.0.todos@) == new_todos(todos@),
            created.0.relations@.len() == 0,
            created.0.due_date is None,
            created.0.created_at == created.0.updated_at,
            created.0.id@.len() == 36,
            created.0.file_path@ == new_task_path(self.spec_data_dir(), title@),
            created.1.path@ == created.0.file_path@,
            created.1.content@ == written(created.0.document(), self.spec_nesting()),
    {
        let name = Self::sanitize_filename(title.as_str());
        let mut file_name = chars_of(name.as_str());
        push_str(&mut file_name, ".norg");
        proof {
            reveal_strlit(".norg");
            assert(".norg"@ =~= task_extension());
        }
        let file_path = join_path(self.data_dir.as_str(), file_name.as_slice());
        let mut task = Task::new(title, file_path);
        task.description = description;
        let mut items: Vec<TodoItem> = Vec::new();
        let mut i: usize = 0;
        while i < todos.len()
            invariant
                i <= todos@.len(),
                crate::task::todo_views(items@) == new_todos(todos@.take(i as int)),
            decreases todos@.len() - i,
        {
            let ghost before = crate::task::todo_views(items@);
            let item = TodoItem {
                id: crate::parser::make_todo_id(i),
                text: todos[i].clone(),
                state: TodoState::Undone,
                level: 0,
                line_number: 0,
            };
            items.push(item);
            proof {
                assert(crate::task::todo_views(items@) =~= before.push(item@));
                assert(before.push(item@) =~= new_todos(todos@.take(i + 1)));
            }
            i += 1;
        }
        proof {
            assert(todos@.take(i as int) =~= todos@);
        }
        task.todos = items;
        let file = FileWrite {
            path: task.file_path.clone(),
            content: NorgParser::write_task_file_with(&task, self.nesting),
        };
        (task, file)
    }

    /// Adds a task at the end of the store, and returns it.
    pub fn add_task(&mut self, task: Task) -> (added: &Task)
        ensures
            final(self).spec_tasks() == old(self).spec_tasks().push(task),
            *added == task,
            final(self).spec_data_dir() == old(self).spec_data_dir(),
            final(self).spec_nesting() == old(self).spec_nesting(),
    {
        self.tasks.push(task);
        let last: usize = self.tasks.len() - 1;
        &self.tasks[last]
    }

    /// The document to write for the first task with the given identifier:
    /// its path and its canonical text. There is none if no task has that
    /// identifier.
    pub fn save_task(&self, task_id: &str) -> (file: Option<FileWrite>)
        ensures
            match file {
                Some(file) => {
                    let i = index_of_id(self.spec_tasks(), task_id@) as int;
                    &&& i < self.spec_tasks().len()
                    &&& file.path@ == self.spec_tasks()[i].file_path@
                    &&& file.content@ == written(
                        self.spec_tasks()[i].document(),
                        self.spec_nesting(),
                    )
                },
                None => index_of_id(self.spec_tasks(), task_id@) == self.spec_tasks().len(),
            },
    {
        match self.find_task(task_id) {
            Some(i) => {
                let task = &self.tasks[i];
                Some(
                    FileWrite {
                        path: task.file_path.clone(),
                        content: NorgParser::write_task_file_with(task, self.nesting),
                    },
                )
            },
            None => None,
        }
    }

    /// Takes the first task with the given identifier out of the store, and
    /// returns it: its document is to be removed. Without such a task the
    /// store stays as it is.
    pub fn delete_task(&mut self, task_id: &str) -> (removed: Option<Task>)
        ensures
            final(self).spec_data_dir() == old(self).spec_data_dir(),
            final(self).spec_nesting() == old(self).spec_nesting(),
            match removed {
                Some(task) => {
                    let i = index_of_id(old(self).spec_tasks(), task_id@) as int;
                    &&& i < old(self).spec_tasks().len()
                    &&& task == old(self).spec_tasks()[i]
                    &&& final(self).spec_tasks() == old(self).spec_tasks().remove(i)
                },
                None => {
                    &&& index_of_id(old(self).spec_tasks(), task_id@) == old(self).spec_tasks().len()
                    &&& final(self).spec_tasks() == old(self).spec_tasks()
                },
            },
    {
        match self.find_task(task_id) {
            Some(i) => Some(self.tasks.remove(i)),
            None => None,
        }
    }

    /// The tasks grouped by their workflow column, each group in the order
    /// of the store. The groups are computed from the to-dos at each call.
    pub fn get_tasks_by_category(&self) -> (groups: TasksByCategory<'_>)
        ensures
            groups.yet_to_be_done@.unref() == self.spec_tasks().filter(
                in_category(KanbanCategory::YetToBeDone),
            ),
            groups.in_progress@.unref() == self.spec_tasks().filter(
                in_category(KanbanCategory::InProgress),
            ),
            groups.completed@.unref() == self.spec_tasks().filter(
                in_category(KanbanCategory::Completed),
            ),
    {
        let mut groups = TasksByCategory {
            yet_to_be_done: Vec::new(),
            in_progress: Vec::new(),
            completed: Vec::new(),
        };
        let mut i: usize = 0;
        proof {
            reveal(Seq::filter);
            assert(self.tasks@.take(0) =~= Seq::<Task>::empty());
            assert(groups.yet_to_be_done@.unref() =~= Seq::<Task>::empty());
            assert(groups.in_progress@.unref() =~= Seq::<Task>::empty());
            assert(groups.completed@.unref() =~= Seq::<Task>::empty());
        }
        while i < self.tasks.len()
            invariant
                i <= self.tasks@.len(),
                groups.yet_to_be_done@.unref() == self.tasks@.take(i as int).filter(
                    in_category(KanbanCategory::YetToBeDone),
                ),
                groups.in_progress@.unref() == self.tasks@.take(i as int).filter(
                    in_category(KanbanCategory::InProgress),
                ),
                groups.completed@.unref() == self.tasks@.take(i as int).filter(
                    in_category(KanbanCategory::Completed),
                ),
            decreases self.tasks@.len() - i,
        {
            let task = &self.tasks[i];
            let ghost first = groups.yet_to_be_done@.unref();
            let ghost second = groups.in_progress@.unref();
            let ghost third = groups.completed@.unref();
            proof {
                reveal(Seq::filter);
                assert(self.tasks@.take(i + 1).drop_last() =~= self.tasks@.take(i as int));
                assert(self.tasks@.take(i + 1).last() == *task);
            }
            match task.kanban_category() {
                KanbanCategory::YetToBeDone => {
                    groups.yet_to_be_done.push(task);
                    proof {
                        assert(groups.yet_to_be_done@.unref() =~= first.push(*task));
                    }
                },
                KanbanCategory::InProgress => {
                    groups.in_progress.push(task);
                    proof {
                        assert(groups.in_progress@.unref() =~= second.push(*task));
                    }
                },
                KanbanCategory::Completed => {
                    groups.completed.push(task);
                    proof {
                        assert(groups.completed@.unref() =~= third.push(*task));
                    }
                },
            }
            i += 1;
        }
        proof {
            assert(self.tasks@.take(i as int) =~= self.tasks@);
        }
        groups
    }

    /// The tasks whose title, description or to-do texts hold `query`,
    /// letter case apart, in the order of the store.
    pub fn search_tasks(&self, query: &str) -> (found: Vec<&Task>)
        ensures
            found@.unref() == self.spec_tasks().filter(matching(lowercase(query@))),
    {
        let lowered = to_lowercase(query);
        let needle = chars_of(lowered.as_str());
        let mut found: Vec<&Task> = Vec::new();
        let mut i: usize = 0;
        proof {
            reveal(Seq::filter);
            assert(self.tasks@.take(0) =~= Seq::<Task>::empty());
            assert(found@.unref() =~= Seq::<Task>::empty());
        }
        while i < self.tasks.len()
            invariant
                i <= self.tasks@.len(),
                needle@ == lowercase(query@),
                found@.unref() == self.tasks@.take(i as int).filter(matching(needle@)),
            decreases self.tasks@.len() - i,
        {
            let task = &self.tasks[i];
            let ghost before = found@.unref();
            proof {
                reveal(Seq::filter);
                assert(self.tasks@.take(i + 1).drop_last() =~= self.tasks@.take(i as int));
                assert(self.tasks@.take(i + 1).last() == *task);
            }
            if Self::matches_query(task, needle.as_slice()) {
                found.push(task);
                proof {
                    assert(found@.unref() =~= before.push(*task));
                }
            }
            i += 1;
        }
        proof {
            assert(self.tasks@.take(i as int) =~= self.tasks@);
        }
        found
    }

    /// Whether the lower-case form of `text` holds `needle`.
    fn holds(text: &str, needle: &[char]) -> (b: bool)
        ensures
            b == contains(lowercase(text@), needle@),
    {
        let lowered = to_lowercase(text);
        let chars = chars_of(lowered.as_str());
        contains_chars(chars.as_slice(), needle)
    }

    /// Whether the title, the description or the text of a to-do of `task`
    /// holds `needle` when put in lower case.
    pub fn matches_query(task: &Task, needle: &[char]) -> (b: bool)
        ensures
            b == task_matches(*task, needle@),
    {
        if Self::holds(task.title.as_str(), needle) {
            return true;
        }
        if Self::holds(task.description.as_str(), needle) {
            return true;
        }
        let mut i: usize = 0;
        while i < task.todos.len()
            invariant
                i <= task.todos@.len(),
                forall|j: int|
                    0 <= j < i ==> !contains(lowercase(#[trigger] task.todos@[j].text@), needle@),
            decreases task.todos@.len() - i,
        {
            if Self::holds(task.todos[i].text.as_str(), needle) {
                return true;
            }
            i += 1;
        }
        false
    }

    /// Moves the to-do at `todo_index` of the first task with the given
    /// identifier on to its next state, and returns the document to write.
    /// Without such a task or such a to-do the store stays as it is, and
    /// there is nothing to write.
    pub fn toggle_todo_state(&mut self, task_id: &str, todo_index: usize) -> (file: Option<
        FileWrite,
    >)
        ensures
            final(self).spec_data_dir() == old(self).spec_data_dir(),
            final(self).spec_nesting() == old(self).spec_nesting(),
            final(self).spec_tasks().len() == old(self).spec_tasks().len(),
            ({
                let i = index_of_id(old(self).spec_tasks(), task_id@) as int;
                let hit = i < old(self).spec_tasks().len() && todo_index < old(
                    self,
                ).spec_tasks()[i].todos@.len();
                &&& file is Some <==> hit
                &&& !hit ==> final(self).spec_tasks() == old(self).spec_tasks()
                &&& hit ==> {
                    &&& with_toggled(
                        old(self).spec_tasks()[i],
                        todo_index as int,
                        final(self).spec_tasks()[i],
                    )
                    &&& forall|j: int|
                        0 <= j < old(self).spec_tasks().len() && j != i
                            ==> #[trigger] final(self).spec_tasks()[j] == old(self).spec_tasks()[j]
                    &&& file.unwrap().path@ == final(self).spec_tasks()[i].file_path@
                    &&& file.unwrap().content@ == written(
                        final(self).spec_tasks()[i].document(),
                        old(self).spec_nesting(),
                    )
                }
            }),
    {
        match self.find_task(task_id) {
            Some(i) => {
                if todo_index < self.tasks[i].todos.len() {
                    let next = self.tasks[i].todos[todo_index].state.toggled();
                    self.tasks[i].todos[todo_index].state = next;
                    let task = &self.tasks[i];
                    Some(
                        FileWrite {
                            path: task.file_path.clone(),
                            content: NorgParser::write_task_file_with(task, self.nesting),
                        },
                    )
                } else {
                    None
                }
            },
            None => None,
        }
    }
}

} // verus!
