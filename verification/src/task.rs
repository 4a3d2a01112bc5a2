//! The task domain model: to-do states, to-do items, tasks and the workflow
//! column a task falls into.

use vstd::multiset::Multiset;
use vstd::prelude::*;
use vstd::seq_lib::*;

verus! {

/// The status of a to-do item.
#[derive(Debug, Clone, Copy, PartialEq, Eq, Structural, Hash)]
pub enum TodoState {
    Done,
    Pending,
    Undone,
    Uncertain,
    OnHold,
    Cancelled,
    Recurring,
    Urgent,
}

impl TodoState {
    /// The status-character table, read from character to state: the state
    /// that a character of the table stands for.
    pub open spec fn table_state(c: char) -> Option<TodoState> {
        if c == 'x' {
            Some(TodoState::Done)
        } else if c == '-' {
            Some(TodoState::Pending)
        } else if c == ' ' {
            Some(TodoState::Undone)
        } else if c == '?' {
            Some(TodoState::Uncertain)
        } else if c == '=' {
            Some(TodoState::OnHold)
        } else if c == '_' {
            Some(TodoState::Cancelled)
        } else if c == '+' {
            Some(TodoState::Recurring)
        } else if c == '!' {
            Some(TodoState::Urgent)
        } else {
            None
        }
    }

    /// The one status character that stands for a state.
    pub open spec fn spec_to_norg_char(self) -> char {
        match self {
            TodoState::Done => 'x',
            TodoState::Pending => '-',
            TodoState::Undone => ' ',
            TodoState::Uncertain => '?',
            TodoState::OnHold => '=',
            TodoState::Cancelled => '_',
            TodoState::Recurring => '+',
            TodoState::Urgent => '!',
        }
    }

    /// Total decoding: a character outside the table stands for `Undone`.
    pub open spec fn spec_decode(c: char) -> TodoState {
        match Self::table_state(c) {
            Some(state) => state,
            None => TodoState::Undone,
        }
    }

    /// The state that a status character stands for. Decoding never fails: a
    /// character outside the table stands for `Undone`.
    pub fn from_norg_char(c: char) -> (state: TodoState)
        ensures
            state == Self::spec_decode(c),
    {
        match c {
            'x' => TodoState::Done,
            '-' => TodoState::Pending,
            ' ' => TodoState::Undone,
            '?' => TodoState::Uncertain,
            '=' => TodoState::OnHold,
            '_' => TodoState::Cancelled,
            '+' => TodoState::Recurring,
            '!' => TodoState::Urgent,
            _ => TodoState::Undone,
        }
    }

    /// The status character of a state.
    pub fn to_norg_char(&self) -> (c: char)
        ensures
            c == self.spec_to_norg_char(),
    {
        match self {
            TodoState::Done => 'x',
            TodoState::Pending => '-',
            TodoState::Undone => ' ',
            TodoState::Uncertain => '?',
            TodoState::OnHold => '=',
            TodoState::Cancelled => '_',
            TodoState::Recurring => '+',
            TodoState::Urgent => '!',
        }
    }

    /// Decodes a status character: `from_norg_char` under its other name.
    pub fn decode(c: char) -> (state: TodoState)
        ensures
            state == Self::spec_decode(c),
    {
        Self::from_norg_char(c)
    }

    /// The human-readable label of a state.
    pub open spec fn spec_label(self) -> Seq<char> {
        match self {
            TodoState::Done => "Done"@,
            TodoState::Pending => "Pending"@,
            TodoState::Undone => "To Do"@,
            TodoState::Uncertain => "Uncertain"@,
            TodoState::OnHold => "On Hold"@,
            TodoState::Cancelled => "Cancelled"@,
            TodoState::Recurring => "Recurring"@,
            TodoState::Urgent => "Urgent"@,
        }
    }

    pub fn to_string(&self) -> (label: &'static str)
        ensures
            label@ == self.spec_label(),
    {
        match self {
            TodoState::Done => "Done",
            TodoState::Pending => "Pending",
            TodoState::Undone => "To Do",
            TodoState::Uncertain => "Uncertain",
            TodoState::OnHold => "On Hold",
            TodoState::Cancelled => "Cancelled",
            TodoState::Recurring => "Recurring",
            TodoState::Urgent => "Urgent",
        }
    }

    pub open spec fn spec_is_completed(&self) -> bool {
        *self == TodoState::Done || *self == TodoState::Cancelled
    }

    pub open spec fn spec_is_in_progress(&self) -> bool {
        *self == TodoState::Pending || *self == TodoState::Urgent
    }

    #[verifier::when_used_as_spec(spec_is_completed)]
    pub fn is_completed(&self) -> (b: bool)
        ensures
            b == self.spec_is_completed(),
    {
        matches!(self, TodoState::Done | TodoState::Cancelled)
    }

    #[verifier::when_used_as_spec(spec_is_in_progress)]
    pub fn is_in_progress(&self) -> (b: bool)
        ensures
            b == self.spec_is_in_progress(),
    {
        matches!(self, TodoState::Pending | TodoState::Urgent)
    }

    /// The state that follows `self` when a to-do is toggled: the cycle
    /// `Undone`, `Pending`, `Done`, which every other state joins at a fixed
    /// point.
    pub open spec fn spec_toggled(&self) -> TodoState {
        match self {
            TodoState::Undone => TodoState::Pending,
            TodoState::Pending => TodoState::Done,
            TodoState::Done => TodoState::Undone,
            TodoState::Urgent => TodoState::Done,
            TodoState::Uncertain => TodoState::Pending,
            TodoState::OnHold => TodoState::Pending,
            TodoState::Cancelled => TodoState::Undone,
            TodoState::Recurring => TodoState::Done,
        }
    }

    #[verifier::when_used_as_spec(spec_toggled)]
    pub fn toggled(&self) -> (next: TodoState)
        ensures
            next == self.spec_toggled(),
    {
        match self {
            TodoState::Undone => TodoState::Pending,
            TodoState::Pending => TodoState::Done,
            TodoState::Done => TodoState::Undone,
            TodoState::Urgent => TodoState::Done,
            TodoState::Uncertain => TodoState::Pending,
            TodoState::OnHold => TodoState::Pending,
            TodoState::Cancelled => TodoState::Undone,
            TodoState::Recurring => TodoState::Done,
        }
    }

    /// Decoding the character of a state gives the state back.
    pub proof fn lemma_decode_encode(self)
        ensures
            Self::spec_decode(self.spec_to_norg_char()) == self,
            Self::table_state(self.spec_to_norg_char()) == Some(self),
    {
    }

    /// Two states with the same character are the same state.
    pub proof fn lemma_encode_injective(self, other: TodoState)
        requires
            self.spec_to_norg_char() == other.spec_to_norg_char(),
        ensures
            self == other,
    {
    }

    /// A character that stands for a state is that state's own character.
    pub proof fn lemma_encode_decode(c: char)
        requires
            Self::table_state(c) is Some,
        ensures
            Self::table_state(c).unwrap().spec_to_norg_char() == c,
    {
    }

    /// Decoding is total, and falls back to `Undone` exactly on the
    /// characters outside the table.
    pub proof fn lemma_decode_total(c: char)
        ensures
            Self::table_state(c) is None ==> Self::spec_decode(c) == TodoState::Undone,
            Self::table_state(c) is Some ==> Self::spec_decode(c)
                == Self::table_state(c).unwrap(),
    {
    }
}

/// A single checkable line item of a task.
#[derive(Debug, Clone)]
pub struct TodoItem {
    /// Identifier unique within the owning task; assigned anew by every parse.
    pub id: String,
    pub text: String,
    pub state: TodoState,
    /// Nesting depth.
    pub level: usize,
    /// One-based position in the source document, or 0 if unknown.
    pub line_number: usize,
}

/// The mathematical value of a [`TodoItem`].
pub struct TodoItemView {
    pub id: Seq<char>,
    pub text: Seq<char>,
    pub state: TodoState,
    pub level: nat,
    pub line_number: nat,
}

impl View for TodoItem {
    type V = TodoItemView;

    open spec fn view(&self) -> TodoItemView {
        TodoItemView {
            id: self.id@,
            text: self.text@,
            state: self.state,
            level: self.level as nat,
            line_number: self.line_number as nat,
        }
    }
}

/// How one task relates to another.
#[derive(Debug, Clone, Copy, PartialEq, Eq, Structural)]
pub enum RelationType {
    Related,
    Requires,
    Blocks,
}

/// A link from a task to another task.
#[derive(Debug, Clone)]
pub struct TaskRelation {
    pub target_task_id: String,
    pub relation_type: RelationType,
}

/// The mathematical value of a [`TaskRelation`].
pub struct TaskRelationView {
    pub target_task_id: Seq<char>,
    pub relation_type: RelationType,
}

impl View for TaskRelation {
    type V = TaskRelationView;

    open spec fn view(&self) -> TaskRelationView {
        TaskRelationView {
            target_task_id: self.target_task_id@,
            relation_type: self.relation_type,
        }
    }
}

/// A calendar date.
#[derive(Debug, Clone, Copy, PartialEq, Eq, Structural)]
pub struct Date {
    pub year: i32,
    pub month: u32,
    pub day: u32,
}

/// An instant in UTC: whole seconds since the Unix epoch, and the nanoseconds
/// into that second.
#[derive(Debug, Clone, Copy, PartialEq, Eq, Structural)]
pub struct Timestamp {
    pub secs: i64,
    pub nanos: u32,
}

/// The workflow column of a task, always derived from its to-dos.
#[derive(Debug, Clone, Copy, PartialEq, Eq, Structural, Hash)]
pub enum KanbanCategory {
    YetToBeDone,
    InProgress,
    Completed,
}

impl KanbanCategory {
    pub open spec fn spec_label(self) -> Seq<char> {
        match self {
            KanbanCategory::YetToBeDone => "Yet to be Done"@,
            KanbanCategory::InProgress => "In Progress"@,
            KanbanCategory::Completed => "Completed"@,
        }
    }

    pub fn to_string(&self) -> (label: &'static str)
        ensures
            label@ == self.spec_label(),
    {
        match self {
            KanbanCategory::YetToBeDone => "Yet to be Done",
            KanbanCategory::InProgress => "In Progress",
            KanbanCategory::Completed => "Completed",
        }
    }
}

/// How often each state occurs among the to-dos of a task.
#[derive(Debug, Clone, Copy, PartialEq, Eq, Structural)]
pub struct TodoCounts {
    pub done: usize,
    pub pending: usize,
    pub undone: usize,
    pub uncertain: usize,
    pub on_hold: usize,
    pub cancelled: usize,
    pub recurring: usize,
    pub urgent: usize,
}

impl TodoCounts {
    pub open spec fn spec_get(&self, state: &TodoState) -> usize {
        match *state {
            TodoState::Done => self.done,
            TodoState::Pending => self.pending,
            TodoState::Undone => self.undone,
            TodoState::Uncertain => self.uncertain,
            TodoState::OnHold => self.on_hold,
            TodoState::Cancelled => self.cancelled,
            TodoState::Recurring => self.recurring,
            TodoState::Urgent => self.urgent,
        }
    }

    /// The number of to-dos in `state`.
    #[verifier::when_used_as_spec(spec_get)]
    pub fn get(&self, state: &TodoState) -> (n: usize)
        ensures
            n == self.spec_get(state),
    {
        match *state {
            TodoState::Done => self.done,
            TodoState::Pending => self.pending,
            TodoState::Undone => self.undone,
            TodoState::Uncertain => self.uncertain,
            TodoState::OnHold => self.on_hold,
            TodoState::Cancelled => self.cancelled,
            TodoState::Recurring => self.recurring,
            TodoState::Urgent => self.urgent,
        }
    }

    /// The table in which every state occurs as often as in `states`.
    pub open spec fn counts(&self, states: Multiset<TodoState>) -> bool {
        forall|state: TodoState| #[trigger] self.spec_get(&state) == states.count(state)
    }
}

/// The states of a list of to-dos, in order.
pub open spec fn todo_states(todos: Seq<TodoItem>) -> Seq<TodoState> {
    todos.map_values(|todo: TodoItem| todo.state)
}

/// The states of a list of to-dos, without their order.
pub open spec fn state_multiset(todos: Seq<TodoItem>) -> Multiset<TodoState> {
    todo_states(todos).to_multiset()
}

/// The values of a list of to-dos.
pub open spec fn todo_views(todos: Seq<TodoItem>) -> Seq<TodoItemView> {
    todos.map_values(|todo: TodoItem| todo@)
}

/// The values of a list of relations.
pub open spec fn relation_views(relations: Seq<TaskRelation>) -> Seq<TaskRelationView> {
    relations.map_values(|relation: TaskRelation| relation@)
}

/// How many of the states count as completed: `Done` or `Cancelled`.
pub open spec fn completed_in(states: Multiset<TodoState>) -> nat {
    states.count(TodoState::Done) + states.count(TodoState::Cancelled)
}

/// How many of the states count as in progress: `Pending` or `Urgent`.
pub open spec fn in_progress_in(states: Multiset<TodoState>) -> nat {
    states.count(TodoState::Pending) + states.count(TodoState::Urgent)
}

/// The workflow column that a multiset of to-do states falls into.
pub open spec fn category_of(states: Multiset<TodoState>) -> KanbanCategory {
    if states.len() == 0 {
        KanbanCategory::YetToBeDone
    } else if completed_in(states) == states.len() {
        KanbanCategory::Completed
    } else if in_progress_in(states) > 0 || completed_in(states) > 0 {
        KanbanCategory::InProgress
    } else {
        KanbanCategory::YetToBeDone
    }
}

/// The share of completed states, in whole percent, rounded down; an empty
/// multiset counts as complete.
pub open spec fn percent_of(states: Multiset<TodoState>) -> nat {
    if states.len() == 0 {
        100
    } else {
        (100 * completed_in(states) / states.len()) as nat
    }
}

/// A task: a title, a free-form description and an ordered list of to-dos,
/// backed by one document.
#[derive(Debug, Clone)]
pub struct Task {
    /// Generated when the task is made; not stored in the document.
    pub id: String,
    pub title: String,
    pub description: String,
    pub todos: Vec<TodoItem>,
    pub relations: Vec<TaskRelation>,
    /// Where the backing document lies.
    pub file_path: String,
    pub due_date: Option<Date>,
    pub created_at: Timestamp,
    pub updated_at: Timestamp,
}

/// The mathematical value of a [`Task`].
pub struct TaskView {
    pub id: Seq<char>,
    pub title: Seq<char>,
    pub description: Seq<char>,
    pub todos: Seq<TodoItemView>,
    pub relations: Seq<TaskRelationView>,
    pub file_path: Seq<char>,
    pub due_date: Option<Date>,
    pub created_at: Timestamp,
    pub updated_at: Timestamp,
}

impl View for Task {
    type V = TaskView;

    open spec fn view(&self) -> TaskView {
        TaskView {
            id: self.id@,
            title: self.title@,
            description: self.description@,
            todos: todo_views(self.todos@),
            relations: relation_views(self.relations@),
            file_path: self.file_path@,
            due_date: self.due_date,
            created_at: self.created_at,
            updated_at: self.updated_at,
        }
    }
}

/// `uuid::Uuid::new_v4`, printed with `to_string`: a random version-4 UUID in
/// its hyphenated form, which is 36 characters long. Nothing else is claimed
/// of it; two calls differ.
#[verifier::external_body]
fn fresh_task_id() -> (id: String)
    ensures
        id@.len() == 36,
{
    uuid::Uuid::new_v4().to_string()
}

/// The system time, made a `chrono::DateTime<Utc>` by chrono's conversion
/// from `std::time::SystemTime`, as seconds and nanoseconds since the Unix
/// epoch. A clock set before the epoch gives negative seconds. Nothing is
/// claimed of the result.
#[verifier::external_body]
fn current_time() -> Timestamp {
    let now = chrono::DateTime::<chrono::Utc>::from(std::time::SystemTime::now());
    Timestamp { secs: now.timestamp(), nanos: now.timestamp_subsec_nanos() }
}

impl Task {
    /// A task with a fresh identifier, no description, no to-dos and no
    /// relations, created and updated now.
    pub fn new(title: String, file_path: String) -> (task: Task)
        ensures
            task.title@ == title@,
            task.file_path@ == file_path@,
            task.description@.len() == 0,
            task.todos@.len() == 0,
            task.relations@.len() == 0,
            task.due_date is None,
            task.created_at == task.updated_at,
            task.id@.len() == 36,
    {
        Self::with_id(title, file_path, fresh_task_id(), current_time())
    }

    /// A task with the given identifier, no description, no to-dos and no
    /// relations, created and updated at `now`.
    pub fn with_id(title: String, file_path: String, id: String, now: Timestamp) -> (task: Task)
        ensures
            task.id@ == id@,
            task.title@ == title@,
            task.file_path@ == file_path@,
            task.description@.len() == 0,
            task.todos@.len() == 0,
            task.relations@.len() == 0,
            task.due_date is None,
            task.created_at == now,
            task.updated_at == now,
    {
        Task {
            id,
            title,
            description: String::new(),
            todos: Vec::new(),
            relations: Vec::new(),
            file_path,
            due_date: None,
            created_at: now,
            updated_at: now,
        }
    }

    /// The states of the to-dos, without their order.
    pub open spec fn states(&self) -> Multiset<TodoState> {
        state_multiset(self.todos@)
    }

    /// The frequency table of the to-do states.
    pub fn todo_counts(&self) -> (counts: TodoCounts)
        ensures
            counts.counts(self.states()),
    {
        let mut counts = TodoCounts {
            done: 0,
            pending: 0,
            undone: 0,
            uncertain: 0,
            on_hold: 0,
            cancelled: 0,
            recurring: 0,
            urgent: 0,
        };
        proof {
            lemma_state_multiset_len(self.todos@.take(0));
            assert forall|state: TodoState| #[trigger]
                counts.spec_get(&state) == state_multiset(self.todos@.take(0)).count(state) by {
                lemma_state_count_bounded(self.todos@.take(0), state);
            }
        }
        let mut i: usize = 0;
        while i < self.todos.len()
            invariant
                i <= self.todos.len(),
                counts.counts(state_multiset(self.todos@.take(i as int))),
            decreases self.todos.len() - i,
        {
            let ghost before = state_multiset(self.todos@.take(i as int));
            let ghost earlier = counts;
            let state = self.todos[i].state;
            proof {
                lemma_states_take_next(self.todos@, i as int);
                lemma_state_count_bounded(self.todos@.take(i as int), state);
                assert(earlier.spec_get(&state) == before.count(state));
            }
            match state {
                TodoState::Done => { counts.done += 1; },
                TodoState::Pending => { counts.pending += 1; },
                TodoState::Undone => { counts.undone += 1; },
                TodoState::Uncertain => { counts.uncertain += 1; },
                TodoState::OnHold => { counts.on_hold += 1; },
                TodoState::Cancelled => { counts.cancelled += 1; },
                TodoState::Recurring => { counts.recurring += 1; },
                TodoState::Urgent => { counts.urgent += 1; },
            }
            proof {
                assert forall|other: TodoState| #[trigger]
                    counts.spec_get(&other) == before.insert(state).count(other) by {
                    assert(earlier.spec_get(&other) == before.count(other));
                    if other == state {
                        vstd::multiset::lemma_insert_increases_count_by_1(before, state);
                    } else {
                        vstd::multiset::lemma_insert_other_elements_unchanged(before, state, other);
                    }
                }
            }
            i += 1;
        }
        proof {
            assert(self.todos@.take(i as int) == self.todos@);
        }
        counts
    }

    /// The number of to-dos that are `Done` or `Cancelled`.
    pub fn completed_count(&self) -> (n: usize)
        ensures
            n == completed_in(self.states()),
            n <= self.todos@.len(),
    {
        let counts = self.todo_counts();
        let total: usize = self.todos.len();
        proof {
            lemma_completed_bounded(self.todos@);
            assert(counts.spec_get(&TodoState::Done) == self.states().count(TodoState::Done));
            assert(counts.spec_get(&TodoState::Cancelled) == self.states().count(
                TodoState::Cancelled,
            ));
            assert(counts.done + counts.cancelled <= total);
        }
        counts.done + counts.cancelled
    }

    /// The share of completed to-dos in whole percent, rounded down. A task
    /// without to-dos counts as complete.
    pub fn completion_percent(&self) -> (percent: u8)
        ensures
            percent == percent_of(self.states()),
            percent <= 100,
            self.todos@.len() == 0 ==> percent == 100,
    {
        let total: usize = self.todos.len();
        proof {
            lemma_state_multiset_len(self.todos@);
        }
        if total == 0 {
            return 100;
        }
        let completed: usize = self.completed_count();
        let scaled: u128 = 100u128 * (completed as u128);
        let percent: u128 = scaled / (total as u128);
        proof {
            assert(100 * completed / (total as int) <= 100) by (nonlinear_arith)
                requires
                    0 <= completed <= total,
                    total > 0,
            ;
        }
        percent as u8
    }

    pub open spec fn spec_kanban_category(&self) -> KanbanCategory {
        category_of(self.states())
    }

    /// The workflow column of the task, computed from the current states of
    /// its to-dos.
    #[verifier::when_used_as_spec(spec_kanban_category)]
    pub fn kanban_category(&self) -> (category: KanbanCategory)
        ensures
            category == category_of(self.states()),
    {
        proof {
            lemma_state_multiset_len(self.todos@);
        }
        if self.todos.len() == 0 {
            return KanbanCategory::YetToBeDone;
        }
        let counts = self.todo_counts();
        let total: usize = self.todos.len();
        proof {
            lemma_completed_bounded(self.todos@);
            lemma_in_progress_bounded(self.todos@);
            assert(counts.spec_get(&TodoState::Done) == self.states().count(TodoState::Done));
            assert(counts.spec_get(&TodoState::Cancelled) == self.states().count(
                TodoState::Cancelled,
            ));
            assert(counts.spec_get(&TodoState::Pending) == self.states().count(
                TodoState::Pending,
            ));
            assert(counts.spec_get(&TodoState::Urgent) == self.states().count(TodoState::Urgent));
        }
        let completed: usize = counts.done + counts.cancelled;
        let in_progress: usize = counts.pending + counts.urgent;
        if completed == total {
            KanbanCategory::Completed
        } else if in_progress > 0 || completed > 0 {
            KanbanCategory::InProgress
        } else {
            KanbanCategory::YetToBeDone
        }
    }
}

/// The states of the first `i + 1` to-dos are those of the first `i` and the
/// state of the next.
pub proof fn lemma_states_take_next(todos: Seq<TodoItem>, i: int)
    requires
        0 <= i < todos.len(),
    ensures
        state_multiset(todos.take(i + 1)) == state_multiset(todos.take(i)).insert(todos[i].state),
{
    let f = |todo: TodoItem| todo.state;
    assert(todos.take(i + 1) == todos.take(i).push(todos[i]));
    assert(todos.take(i).push(todos[i]).map_values(f) == todos.take(i).map_values(f).push(
        todos[i].state,
    ));
    to_multiset_build(todos.take(i).map_values(f), todos[i].state);
}

/// There are as many states as to-dos.
pub proof fn lemma_state_multiset_len(todos: Seq<TodoItem>)
    ensures
        state_multiset(todos).len() == todos.len(),
{
    to_multiset_len(todo_states(todos));
}

/// No state occurs more often than there are to-dos.
pub proof fn lemma_state_count_bounded(todos: Seq<TodoItem>, state: TodoState)
    ensures
        state_multiset(todos).count(state) <= todos.len(),
{
    lemma_state_multiset_len(todos);
    vstd::multiset::axiom_count_le_len(state_multiset(todos), state);
}

/// The states apart from one state `a`, counted together with `a`, are no
/// more than all to-dos.
proof fn lemma_two_counts_bounded(todos: Seq<TodoItem>, a: TodoState, b: TodoState)
    requires
        a != b,
    ensures
        state_multiset(todos).count(a) + state_multiset(todos).count(b) <= todos.len(),
    decreases todos.len(),
{
    if todos.len() == 0 {
        lemma_state_count_bounded(todos, a);
        lemma_state_count_bounded(todos, b);
    } else {
        let i = todos.len() - 1;
        lemma_two_counts_bounded(todos.take(i), a, b);
        lemma_states_take_next(todos, i);
        assert(todos.take(i + 1) == todos);
    }
}

/// The completed to-dos are no more than all to-dos.
pub proof fn lemma_completed_bounded(todos: Seq<TodoItem>)
    ensures
        completed_in(state_multiset(todos)) <= todos.len(),
{
    lemma_two_counts_bounded(todos, TodoState::Done, TodoState::Cancelled);
}

/// The to-dos in progress are no more than all to-dos.
pub proof fn lemma_in_progress_bounded(todos: Seq<TodoItem>)
    ensures
        in_progress_in(state_multiset(todos)) <= todos.len(),
{
    lemma_two_counts_bounded(todos, TodoState::Pending, TodoState::Urgent);
}

/// The workflow column of a task depends on its to-dos only through the
/// multiset of their states.
pub proof fn lemma_category_from_states(a: Task, b: Task)
    requires
        a.states() == b.states(),
    ensures
        a.spec_kanban_category() == b.spec_kanban_category(),
{
}

/// Changing one to-do and then putting back what it was leaves the workflow
/// column as it was.
pub proof fn lemma_category_after_revert(todos: Seq<TodoItem>, i: int, changed: TodoItem)
    requires
        0 <= i < todos.len(),
    ensures
        todos.update(i, changed).update(i, todos[i]) == todos,
        category_of(state_multiset(todos.update(i, changed).update(i, todos[i]))) == category_of(
            state_multiset(todos),
        ),
{
    assert(todos.update(i, changed).update(i, todos[i]) =~= todos);
}

/// A task without to-dos is complete to 100 percent, and waits in the first
/// column.
pub proof fn lemma_empty_task(todos: Seq<TodoItem>)
    requires
        todos.len() == 0,
    ensures
        percent_of(state_multiset(todos)) == 100,
        category_of(state_multiset(todos)) == KanbanCategory::YetToBeDone,
{
    lemma_state_multiset_len(todos);
}

} // verus!
