//! The rules of the interactive front end: what a key means in each mode, how
//! a selection moves, and how the wizard for a new task goes from step to
//! step. Nothing here reads a key or draws a screen.

use vstd::prelude::*;
use crate::task::{KanbanCategory, Task};
use crate::text::{all_blank, is_blank};

verus! {

/// `String::pop` takes the last character off the string and returns it, or
/// returns `None` and leaves the string as it is if it is empty.
pub assume_specification[ String::pop ](s: &mut String) -> (last: Option<char>)
    ensures
        old(s)@.len() > 0 ==> last == Some(old(s)@.last()) && final(s)@ == old(s)@.drop_last(),
        old(s)@.len() == 0 ==> last is None && final(s)@ == old(s)@,
;

/// `String::clear` takes every character out of the string.
pub assume_specification[ String::clear ](s: &mut String)
    ensures
        final(s)@ == Seq::<char>::empty(),
;

/// A key, as far as the front end tells keys apart.
#[derive(Debug, Clone, Copy, PartialEq, Eq, Structural)]
pub enum KeyCode {
    Backspace,
    Enter,
    Left,
    Right,
    Up,
    Down,
    Home,
    End,
    PageUp,
    PageDown,
    Tab,
    Esc,
    Char(char),
    /// Any other key.
    Other,
}

/// The steps of the wizard for a new task.
#[derive(Debug, Clone, Copy, PartialEq, Eq, Structural)]
pub enum WizardStep {
    Title,
    Description,
    Todos,
    Confirm,
}

/// What the front end shows.
#[derive(Debug, Clone, PartialEq)]
pub enum AppMode {
    Dashboard,
    /// The task with this identifier.
    TaskDetail(String),
    CreateTask,
    CreateTaskWizard(WizardStep),
    Search,
    Help,
}

/// The column of the dashboard that has the focus.
#[derive(Debug, Clone, Copy, PartialEq, Eq, Structural)]
pub enum FocusedPane {
    YetToBeDone,
    InProgress,
    Completed,
}

/// What the wizard has collected so far.
#[derive(Debug, Clone)]
pub struct TaskWizardData {
    pub title: String,
    pub description: String,
    pub todos: Vec<String>,
    /// The to-do that is being typed.
    pub current_todo: String,
}

/// What a key asks for on the dashboard.
#[derive(Debug, Clone, Copy, PartialEq, Eq, Structural)]
pub enum DashboardCommand {
    Quit,
    StartWizard,
    StartSearch,
    /// Give the focus to this column.
    Focus(FocusedPane),
    SelectPrevious,
    SelectNext,
    OpenSelected,
    Reload,
    ShowHelp,
    Ignore,
}

/// What a key asks for in the view of one task.
#[derive(Debug, Clone, Copy, PartialEq, Eq, Structural)]
pub enum TaskDetailCommand {
    Back,
    Save,
    SelectPrevious,
    SelectNext,
    Toggle,
    ShowHelp,
    Ignore,
}

/// What a key asks for where a single line is typed.
#[derive(Debug, Clone, Copy, PartialEq, Eq, Structural)]
pub enum LineCommand {
    /// Leave, and drop what was typed.
    Cancel,
    /// Take what was typed.
    Submit,
    /// Go on typing.
    Stay,
}

/// Where the wizard goes after a key.
#[derive(Debug, Clone, Copy, PartialEq, Eq, Structural)]
pub enum WizardMove {
    /// Back to the dashboard, without a task.
    Cancel,
    /// To this step, which may be the step it is at.
    Goto(WizardStep),
    /// Create the task from what was collected.
    Create,
}

impl FocusedPane {
    pub open spec fn spec_left(&self) -> FocusedPane {
        match self {
            FocusedPane::YetToBeDone => FocusedPane::YetToBeDone,
            FocusedPane::InProgress => FocusedPane::YetToBeDone,
            FocusedPane::Completed => FocusedPane::InProgress,
        }
    }

    pub open spec fn spec_right(&self) -> FocusedPane {
        match self {
            FocusedPane::YetToBeDone => FocusedPane::InProgress,
            FocusedPane::InProgress => FocusedPane::Completed,
            FocusedPane::Completed => FocusedPane::Completed,
        }
    }

    pub open spec fn spec_category(&self) -> KanbanCategory {
        match self {
            FocusedPane::YetToBeDone => KanbanCategory::YetToBeDone,
            FocusedPane::InProgress => KanbanCategory::InProgress,
            FocusedPane::Completed => KanbanCategory::Completed,
        }
    }

    /// The column to the left, or the same column if there is none.
    #[verifier::when_used_as_spec(spec_left)]
    pub fn left(&self) -> (pane: FocusedPane)
        ensures
            pane == self.spec_left(),
    {
        match self {
            FocusedPane::YetToBeDone => FocusedPane::YetToBeDone,
            FocusedPane::InProgress => FocusedPane::YetToBeDone,
            FocusedPane::Completed => FocusedPane::InProgress,
        }
    }

    /// The column to the right, or the same column if there is none.
    #[verifier::when_used_as_spec(spec_right)]
    pub fn right(&self) -> (pane: FocusedPane)
        ensures
            pane == self.spec_right(),
    {
        match self {
            FocusedPane::YetToBeDone => FocusedPane::InProgress,
            FocusedPane::InProgress => FocusedPane::Completed,
            FocusedPane::Completed => FocusedPane::Completed,
        }
    }

    /// The workflow column that the pane shows.
    #[verifier::when_used_as_spec(spec_category)]
    pub fn category(&self) -> (category: KanbanCategory)
        ensures
            category == self.spec_category(),
    {
        match self {
            FocusedPane::YetToBeDone => KanbanCategory::YetToBeDone,
            FocusedPane::InProgress => KanbanCategory::InProgress,
            FocusedPane::Completed => KanbanCategory::Completed,
        }
    }
}

/// The meaning of a key on the dashboard, with the focus on `pane`.
pub open spec fn spec_dashboard_command(key: KeyCode, pane: FocusedPane) -> DashboardCommand {
    match key {
        KeyCode::Char(c) => if c == 'q' {
            DashboardCommand::Quit
        } else if c == 'n' {
            DashboardCommand::StartWizard
        } else if c == '/' {
            DashboardCommand::StartSearch
        } else if c == 'r' {
            DashboardCommand::Reload
        } else if c == '?' {
            DashboardCommand::ShowHelp
        } else {
            DashboardCommand::Ignore
        },
        KeyCode::Left => DashboardCommand::Focus(pane.spec_left()),
        KeyCode::Right => DashboardCommand::Focus(pane.spec_right()),
        KeyCode::Up => DashboardCommand::SelectPrevious,
        KeyCode::Down => DashboardCommand::SelectNext,
        KeyCode::Enter => DashboardCommand::OpenSelected,
        _ => DashboardCommand::Ignore,
    }
}

/// What a key asks for on the dashboard, with the focus on `pane`.
#[verifier::when_used_as_spec(spec_dashboard_command)]
pub fn dashboard_command(key: KeyCode, pane: FocusedPane) -> (command: DashboardCommand)
    ensures
        command == spec_dashboard_command(key, pane),
{
    match key {
        KeyCode::Char('q') => DashboardCommand::Quit,
        KeyCode::Char('n') => DashboardCommand::StartWizard,
        KeyCode::Char('/') => DashboardCommand::StartSearch,
        KeyCode::Char('r') => DashboardCommand::Reload,
        KeyCode::Char('?') => DashboardCommand::ShowHelp,
        KeyCode::Left => DashboardCommand::Focus(pane.left()),
        KeyCode::Right => DashboardCommand::Focus(pane.right()),
        KeyCode::Up => DashboardCommand::SelectPrevious,
        KeyCode::Down => DashboardCommand::SelectNext,
        KeyCode::Enter => DashboardCommand::OpenSelected,
        _ => DashboardCommand::Ignore,
    }
}

/// The meaning of a key in the view of one task.
pub open spec fn spec_task_detail_command(key: KeyCode) -> TaskDetailCommand {
    match key {
        KeyCode::Esc => TaskDetailCommand::Back,
        KeyCode::Char(c) => if c == 'q' {
            TaskDetailCommand::Back
        } else if c == 's' {
            TaskDetailCommand::Save
        } else if c == ' ' {
            TaskDetailCommand::Toggle
        } else if c == '?' {
            TaskDetailCommand::ShowHelp
        } else {
            TaskDetailCommand::Ignore
        },
        KeyCode::Up => TaskDetailCommand::SelectPrevious,
        KeyCode::Down => TaskDetailCommand::SelectNext,
        _ => TaskDetailCommand::Ignore,
    }
}

/// What a key asks for in the view of one task.
#[verifier::when_used_as_spec(spec_task_detail_command)]
pub fn task_detail_command(key: KeyCode) -> (command: TaskDetailCommand)
    ensures
        command == spec_task_detail_command(key),
{
    match key {
        KeyCode::Esc => TaskDetailCommand::Back,
        KeyCode::Char('q') => TaskDetailCommand::Back,
        KeyCode::Char('s') => TaskDetailCommand::Save,
        KeyCode::Char(' ') => TaskDetailCommand::Toggle,
        KeyCode::Char('?') => TaskDetailCommand::ShowHelp,
        KeyCode::Up => TaskDetailCommand::SelectPrevious,
        KeyCode::Down => TaskDetailCommand::SelectNext,
        _ => TaskDetailCommand::Ignore,
    }
}

/// The selection after a step down a list of `count` entries: one further,
/// but not past the last entry. An empty list keeps its selection.
pub open spec fn spec_select_next(current: Option<usize>, count: usize) -> Option<usize> {
    if count == 0 {
        current
    } else {
        let at: int = match current {
            Some(at) => at as int,
            None => 0,
        };
        if at + 1 <= count - 1 {
            Some((at + 1) as usize)
        } else {
            Some((count - 1) as usize)
        }
    }
}

/// The selection after a step up a list of `count` entries: one back, but
/// not before the first entry. An empty list keeps its selection.
pub open spec fn spec_select_previous(current: Option<usize>, count: usize) -> Option<usize> {
    if count == 0 {
        current
    } else {
        match current {
            Some(at) => if at > 0 {
                Some((at - 1) as usize)
            } else {
                Some(0)
            },
            None => Some(0),
        }
    }
}

/// Moves a selection one entry down.
#[verifier::when_used_as_spec(spec_select_next)]
pub fn select_next(current: Option<usize>, count: usize) -> (selected: Option<usize>)
    ensures
        selected == spec_select_next(current, count),
{
    if count == 0 {
        return current;
    }
    let at: usize = match current {
        Some(at) => at,
        None => 0,
    };
    if at < count - 1 {
        Some(at + 1)
    } else {
        Some(count - 1)
    }
}

/// Moves a selection one entry up.
#[verifier::when_used_as_spec(spec_select_previous)]
pub fn select_previous(current: Option<usize>, count: usize) -> (selected: Option<usize>)
    ensures
        selected == spec_select_previous(current, count),
{
    if count == 0 {
        return current;
    }
    match current {
        Some(at) => if at > 0 {
            Some(at - 1)
        } else {
            Some(0)
        },
        None => Some(0),
    }
}

/// The mode that shows the selected task of a column, if there is one.
pub fn open_selected(tasks: &Vec<&Task>, selected: Option<usize>) -> (mode: Option<AppMode>)
    ensures
        match mode {
            Some(mode) => selected is Some && selected.unwrap() < tasks@.len() && match mode {
                AppMode::TaskDetail(id) => id@ == tasks@[selected.unwrap() as int].id@,
                _ => false,
            },
            None => selected is None || selected.unwrap() >= tasks@.len(),
        },
{
    match selected {
        Some(at) => if at < tasks.len() {
            Some(AppMode::TaskDetail(tasks[at].id.clone()))
        } else {
            None
        },
        None => None,
    }
}

/// The scroll offset of the help after a key.
pub open spec fn spec_help_scroll(offset: u16, key: KeyCode) -> u16 {
    match key {
        KeyCode::Up => if offset > 0 {
            (offset - 1) as u16
        } else {
            0
        },
        KeyCode::Down => if offset < u16::MAX {
            (offset + 1) as u16
        } else {
            u16::MAX
        },
        KeyCode::PageUp => if offset >= 5 {
            (offset - 5) as u16
        } else {
            0
        },
        KeyCode::PageDown => if offset <= u16::MAX - 5 {
            (offset + 5) as u16
        } else {
            u16::MAX
        },
        KeyCode::Home => 0,
        KeyCode::End => u16::MAX,
        _ => offset,
    }
}

/// A key that closes the help.
pub open spec fn closes_help(key: KeyCode) -> bool {
    key == KeyCode::Esc || key == KeyCode::Char('q') || key == KeyCode::Char('?')
}

/// What a key does to the help: whether it closes it, and the scroll offset
/// after it. Closing sets the offset back to the top. The offset stops at
/// the largest number it can hold.
pub fn help_input(offset: u16, key: KeyCode) -> (after: (bool, u16))
    ensures
        after.0 == closes_help(key),
        after.1 == if closes_help(key) {
            0
        } else {
            spec_help_scroll(offset, key)
        },
{
    match key {
        KeyCode::Esc => (true, 0),
        KeyCode::Char('q') => (true, 0),
        KeyCode::Char('?') => (true, 0),
        KeyCode::Up => (false, offset.saturating_sub(1)),
        KeyCode::Down => (false, offset.saturating_add(1)),
        KeyCode::PageUp => (false, offset.saturating_sub(5)),
        KeyCode::PageDown => (false, offset.saturating_add(5)),
        KeyCode::Home => (false, 0),
        KeyCode::End => (false, u16::MAX),
        _ => (false, offset),
    }
}

/// The scroll offset that shows as much of `content` lines as fits into a
/// window of `window` lines.
pub fn clamp_scroll(offset: usize, content: usize, window: usize) -> (shown: usize)
    ensures
        shown == if content <= window {
            0
        } else if offset <= content - window {
            offset as int
        } else {
            content - window
        },
{
    if content <= window {
        0
    } else if offset <= content - window {
        offset
    } else {
        content - window
    }
}

/// A line after a key: a character is added at its end, and backspace takes
/// the last character away.
pub open spec fn edited(line: Seq<char>, key: KeyCode) -> Seq<char> {
    match key {
        KeyCode::Char(c) => line.push(c),
        KeyCode::Backspace => if line.len() > 0 {
            line.drop_last()
        } else {
            line
        },
        _ => line,
    }
}

/// Applies a key to the line that is being typed.
pub fn edit_line(line: &mut String, key: KeyCode)
    ensures
        final(line)@ == edited(old(line)@, key),
{
    match key {
        KeyCode::Char(c) => {
            line.push(c);
        },
        KeyCode::Backspace => {
            let _ = line.pop();
        },
        _ => {},
    }
}

/// What a key asks for while the search query is typed.
pub fn search_input(query: &mut String, key: KeyCode) -> (command: LineCommand)
    ensures
        command == match key {
            KeyCode::Esc => LineCommand::Cancel,
            KeyCode::Enter => LineCommand::Submit,
            _ => LineCommand::Stay,
        },
        final(query)@ == edited(old(query)@, key),
{
    match key {
        KeyCode::Esc => LineCommand::Cancel,
        KeyCode::Enter => LineCommand::Submit,
        _ => {
            edit_line(query, key);
            LineCommand::Stay
        },
    }
}

/// What a key asks for while the title of a new task is typed. A blank
/// title cannot be taken.
pub fn create_task_input(title: &mut String, key: KeyCode) -> (command: LineCommand)
    ensures
        command == match key {
            KeyCode::Esc => LineCommand::Cancel,
            KeyCode::Enter => if all_blank(old(title)@) {
                LineCommand::Stay
            } else {
                LineCommand::Submit
            },
            _ => LineCommand::Stay,
        },
        final(title)@ == edited(old(title)@, key),
{
    match key {
        KeyCode::Esc => LineCommand::Cancel,
        KeyCode::Enter => if is_blank(title.as_str()) {
            LineCommand::Stay
        } else {
            LineCommand::Submit
        },
        _ => {
            edit_line(title, key);
            LineCommand::Stay
        },
    }
}

/// The texts of the strings.
pub open spec fn texts(strings: Seq<String>) -> Seq<Seq<char>> {
    strings.map_values(|s: String| s@)
}

impl TaskWizardData {
    /// A wizard that has collected nothing.
    pub fn new() -> (data: TaskWizardData)
        ensures
            data.title@.len() == 0,
            data.description@.len() == 0,
            data.todos@.len() == 0,
            data.current_todo@.len() == 0,
    {
        TaskWizardData {
            title: String::new(),
            description: String::new(),
            todos: Vec::new(),
            current_todo: String::new(),
        }
    }

    /// A key at the title step. The wizard goes on to the description once
    /// the title is not blank.
    pub fn title_input(&mut self, key: KeyCode) -> (next: WizardMove)
        ensures
            next == match key {
                KeyCode::Esc => WizardMove::Cancel,
                KeyCode::Enter => if all_blank(old(self).title@) {
                    WizardMove::Goto(WizardStep::Title)
                } else {
                    WizardMove::Goto(WizardStep::Description)
                },
                _ => WizardMove::Goto(WizardStep::Title),
            },
            final(self).title@ == edited(old(self).title@, key),
            final(self).description == old(self).description,
            final(self).todos == old(self).todos,
            final(self).current_todo == old(self).current_todo,
    {
        match key {
            KeyCode::Esc => WizardMove::Cancel,
            KeyCode::Enter => if is_blank(self.title.as_str()) {
                WizardMove::Goto(WizardStep::Title)
            } else {
                WizardMove::Goto(WizardStep::Description)
            },
            _ => {
                edit_line(&mut self.title, key);
                WizardMove::Goto(WizardStep::Title)
            },
        }
    }

    /// A key at the description step. The description may stay empty.
    pub fn description_input(&mut self, key: KeyCode) -> (next: WizardMove)
        ensures
            next == match key {
                KeyCode::Esc => WizardMove::Cancel,
                KeyCode::Enter => WizardMove::Goto(WizardStep::Todos),
                _ => WizardMove::Goto(WizardStep::Description),
            },
            final(self).description@ == edited(old(self).description@, key),
            final(self).title == old(self).title,
            final(self).todos == old(self).todos,
            final(self).current_todo == old(self).current_todo,
    {
        match key {
            KeyCode::Esc => WizardMove::Cancel,
            KeyCode::Enter => WizardMove::Goto(WizardStep::Todos),
            _ => {
                edit_line(&mut self.description, key);
                WizardMove::Goto(WizardStep::Description)
            },
        }
    }

    /// The to-do that is being typed joins the to-dos, if `Enter` or `Tab`
    /// is pressed while it is not blank.
    pub open spec fn takes_todo(&self, key: KeyCode) -> bool {
        (key == KeyCode::Enter || key == KeyCode::Tab) && !all_blank(self.current_todo@)
    }

    /// A key at the step of the to-dos. `Enter` takes the to-do that is
    /// being typed, or goes on to the last step if that to-do is blank.
    /// `Tab` takes it if it is not blank, and goes on to the last step.
    pub fn todos_input(&mut self, key: KeyCode) -> (next: WizardMove)
        ensures
            next == match key {
                KeyCode::Esc => WizardMove::Cancel,
                KeyCode::Enter => if all_blank(old(self).current_todo@) {
                    WizardMove::Goto(WizardStep::Confirm)
                } else {
                    WizardMove::Goto(WizardStep::Todos)
                },
                KeyCode::Tab => WizardMove::Goto(WizardStep::Confirm),
                _ => WizardMove::Goto(WizardStep::Todos),
            },
            texts(final(self).todos@) == if old(self).takes_todo(key) {
                texts(old(self).todos@).push(old(self).current_todo@)
            } else {
                texts(old(self).todos@)
            },
            final(self).current_todo@ == if old(self).takes_todo(key) {
                Seq::<char>::empty()
            } else {
                edited(old(self).current_todo@, key)
            },
            final(self).title == old(self).title,
            final(self).description == old(self).description,
    {
        let ghost before = texts(self.todos@);
        match key {
            KeyCode::Esc => WizardMove::Cancel,
            KeyCode::Enter => {
                if is_blank(self.current_todo.as_str()) {
                    WizardMove::Goto(WizardStep::Confirm)
                } else {
                    self.todos.push(self.current_todo.clone());
                    self.current_todo.clear();
                    proof {
                        assert(texts(self.todos@) =~= before.push(old(self).current_todo@));
                    }
                    WizardMove::Goto(WizardStep::Todos)
                }
            },
            KeyCode::Tab => {
                if !is_blank(self.current_todo.as_str()) {
                    self.todos.push(self.current_todo.clone());
                    self.current_todo.clear();
                    proof {
                        assert(texts(self.todos@) =~= before.push(old(self).current_todo@));
                    }
                }
                WizardMove::Goto(WizardStep::Confirm)
            },
            _ => {
                edit_line(&mut self.current_todo, key);
                WizardMove::Goto(WizardStep::Todos)
            },
        }
    }

    /// The meaning of a key at the last step.
    pub open spec fn spec_confirm_input(key: KeyCode) -> WizardMove {
        match key {
            KeyCode::Esc => WizardMove::Cancel,
            KeyCode::Enter => WizardMove::Create,
            KeyCode::Char(c) => if c == 'y' || c == 'Y' {
                WizardMove::Create
            } else if c == 'n' || c == 'N' {
                WizardMove::Cancel
            } else {
                WizardMove::Goto(WizardStep::Confirm)
            },
            _ => WizardMove::Goto(WizardStep::Confirm),
        }
    }

    /// A key at the last step: create the task, or give up.
    pub fn confirm_input(key: KeyCode) -> (next: WizardMove)
        ensures
            next == Self::spec_confirm_input(key),
    {
        match key {
            KeyCode::Esc => WizardMove::Cancel,
            KeyCode::Enter => WizardMove::Create,
            KeyCode::Char('y') => WizardMove::Create,
            KeyCode::Char('Y') => WizardMove::Create,
            KeyCode::Char('n') => WizardMove::Cancel,
            KeyCode::Char('N') => WizardMove::Cancel,
            _ => WizardMove::Goto(WizardStep::Confirm),
        }
    }
}

} // verus!
