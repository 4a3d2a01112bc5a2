use norgdo::app::{
    clamp_scroll, create_task_input, dashboard_command, edit_line, help_input, open_selected,
    search_input, select_next, select_previous, task_detail_command, AppMode, DashboardCommand,
    FocusedPane, KeyCode, LineCommand, TaskDetailCommand, TaskWizardData, WizardMove, WizardStep,
};
use norgdo::task::{KanbanCategory, Task};

#[test]
fn panes_move_left_and_right() {
    assert_eq!(FocusedPane::YetToBeDone.left(), FocusedPane::YetToBeDone);
    assert_eq!(FocusedPane::InProgress.left(), FocusedPane::YetToBeDone);
    assert_eq!(FocusedPane::Completed.left(), FocusedPane::InProgress);
    assert_eq!(FocusedPane::YetToBeDone.right(), FocusedPane::InProgress);
    assert_eq!(FocusedPane::InProgress.right(), FocusedPane::Completed);
    assert_eq!(FocusedPane::Completed.right(), FocusedPane::Completed);
    assert_eq!(FocusedPane::YetToBeDone.category(), KanbanCategory::YetToBeDone);
    assert_eq!(FocusedPane::InProgress.category(), KanbanCategory::InProgress);
    assert_eq!(FocusedPane::Completed.category(), KanbanCategory::Completed);
}

#[test]
fn keys_on_the_dashboard() {
    let pane = FocusedPane::InProgress;
    assert_eq!(dashboard_command(KeyCode::Char('q'), pane), DashboardCommand::Quit);
    assert_eq!(dashboard_command(KeyCode::Char('n'), pane), DashboardCommand::StartWizard);
    assert_eq!(dashboard_command(KeyCode::Char('/'), pane), DashboardCommand::StartSearch);
    assert_eq!(dashboard_command(KeyCode::Char('r'), pane), DashboardCommand::Reload);
    assert_eq!(dashboard_command(KeyCode::Char('?'), pane), DashboardCommand::ShowHelp);
    assert_eq!(
        dashboard_command(KeyCode::Left, pane),
        DashboardCommand::Focus(FocusedPane::YetToBeDone)
    );
    assert_eq!(
        dashboard_command(KeyCode::Right, pane),
        DashboardCommand::Focus(FocusedPane::Completed)
    );
    assert_eq!(dashboard_command(KeyCode::Up, pane), DashboardCommand::SelectPrevious);
    assert_eq!(dashboard_command(KeyCode::Down, pane), DashboardCommand::SelectNext);
    assert_eq!(dashboard_command(KeyCode::Enter, pane), DashboardCommand::OpenSelected);
    assert_eq!(dashboard_command(KeyCode::Char('x'), pane), DashboardCommand::Ignore);
    assert_eq!(dashboard_command(KeyCode::Esc, pane), DashboardCommand::Ignore);
    assert_eq!(dashboard_command(KeyCode::Other, pane), DashboardCommand::Ignore);
}

#[test]
fn keys_in_the_task_view() {
    assert_eq!(task_detail_command(KeyCode::Esc), TaskDetailCommand::Back);
    assert_eq!(task_detail_command(KeyCode::Char('q')), TaskDetailCommand::Back);
    assert_eq!(task_detail_command(KeyCode::Char('s')), TaskDetailCommand::Save);
    assert_eq!(task_detail_command(KeyCode::Char(' ')), TaskDetailCommand::Toggle);
    assert_eq!(task_detail_command(KeyCode::Char('?')), TaskDetailCommand::ShowHelp);
    assert_eq!(task_detail_command(KeyCode::Up), TaskDetailCommand::SelectPrevious);
    assert_eq!(task_detail_command(KeyCode::Down), TaskDetailCommand::SelectNext);
    assert_eq!(task_detail_command(KeyCode::Enter), TaskDetailCommand::Ignore);
    assert_eq!(task_detail_command(KeyCode::Char('n')), TaskDetailCommand::Ignore);
}

#[test]
fn selection_stays_within_the_list() {
    assert_eq!(select_next(None, 3), Some(1));
    assert_eq!(select_next(Some(0), 3), Some(1));
    assert_eq!(select_next(Some(1), 3), Some(2));
    assert_eq!(select_next(Some(2), 3), Some(2));
    assert_eq!(select_next(Some(9), 3), Some(2));
    assert_eq!(select_next(Some(usize::MAX), 3), Some(2));
    assert_eq!(select_next(None, 1), Some(0));
    assert_eq!(select_next(Some(4), 0), Some(4));
    assert_eq!(select_next(None, 0), None);
    assert_eq!(select_previous(None, 3), Some(0));
    assert_eq!(select_previous(Some(0), 3), Some(0));
    assert_eq!(select_previous(Some(2), 3), Some(1));
    assert_eq!(select_previous(Some(9), 3), Some(8));
    assert_eq!(select_previous(Some(4), 0), Some(4));
    assert_eq!(select_previous(None, 0), None);
}

#[test]
fn opening_the_selected_task() {
    let a = Task::new("a".to_string(), "a.norg".to_string());
    let b = Task::new("b".to_string(), "b.norg".to_string());
    let tasks = vec![&a, &b];
    assert_eq!(open_selected(&tasks, Some(1)), Some(AppMode::TaskDetail(b.id.clone())));
    assert_eq!(open_selected(&tasks, Some(0)), Some(AppMode::TaskDetail(a.id.clone())));
    assert_eq!(open_selected(&tasks, Some(2)), None);
    assert_eq!(open_selected(&tasks, None), None);
    assert_eq!(open_selected(&Vec::new(), Some(0)), None);
}

#[test]
fn keys_in_the_help() {
    assert_eq!(help_input(7, KeyCode::Esc), (true, 0));
    assert_eq!(help_input(7, KeyCode::Char('q')), (true, 0));
    assert_eq!(help_input(7, KeyCode::Char('?')), (true, 0));
    assert_eq!(help_input(7, KeyCode::Up), (false, 6));
    assert_eq!(help_input(0, KeyCode::Up), (false, 0));
    assert_eq!(help_input(7, KeyCode::Down), (false, 8));
    assert_eq!(help_input(u16::MAX, KeyCode::Down), (false, u16::MAX));
    assert_eq!(help_input(7, KeyCode::PageUp), (false, 2));
    assert_eq!(help_input(3, KeyCode::PageUp), (false, 0));
    assert_eq!(help_input(7, KeyCode::PageDown), (false, 12));
    assert_eq!(help_input(u16::MAX - 2, KeyCode::PageDown), (false, u16::MAX));
    assert_eq!(help_input(7, KeyCode::Home), (false, 0));
    assert_eq!(help_input(7, KeyCode::End), (false, u16::MAX));
    assert_eq!(help_input(7, KeyCode::Char('x')), (false, 7));
}

#[test]
fn scroll_offset_fits_the_window() {
    assert_eq!(clamp_scroll(0, 48, 10), 0);
    assert_eq!(clamp_scroll(5, 48, 10), 5);
    assert_eq!(clamp_scroll(38, 48, 10), 38);
    assert_eq!(clamp_scroll(39, 48, 10), 38);
    assert_eq!(clamp_scroll(65535, 48, 10), 38);
    assert_eq!(clamp_scroll(3, 10, 10), 0);
    assert_eq!(clamp_scroll(3, 5, 10), 0);
    assert_eq!(clamp_scroll(3, 0, 0), 0);
}

#[test]
fn typing_a_line() {
    let mut line = String::new();
    edit_line(&mut line, KeyCode::Char('h'));
    edit_line(&mut line, KeyCode::Char('\u{e9}'));
    edit_line(&mut line, KeyCode::Char('y'));
    assert_eq!(line, "h\u{e9}y");
    edit_line(&mut line, KeyCode::Backspace);
    assert_eq!(line, "h\u{e9}");
    edit_line(&mut line, KeyCode::Enter);
    edit_line(&mut line, KeyCode::Left);
    assert_eq!(line, "h\u{e9}");
    edit_line(&mut line, KeyCode::Backspace);
    edit_line(&mut line, KeyCode::Backspace);
    edit_line(&mut line, KeyCode::Backspace);
    assert_eq!(line, "");
}

#[test]
fn typing_a_search_query() {
    let mut query = "mil".to_string();
    assert_eq!(search_input(&mut query, KeyCode::Char('k')), LineCommand::Stay);
    assert_eq!(query, "milk");
    assert_eq!(search_input(&mut query, KeyCode::Backspace), LineCommand::Stay);
    assert_eq!(query, "mil");
    assert_eq!(search_input(&mut query, KeyCode::Enter), LineCommand::Submit);
    assert_eq!(search_input(&mut query, KeyCode::Esc), LineCommand::Cancel);
    assert_eq!(query, "mil");
}

#[test]
fn typing_the_title_of_a_new_task() {
    let mut title = String::new();
    assert_eq!(create_task_input(&mut title, KeyCode::Enter), LineCommand::Stay);
    assert_eq!(create_task_input(&mut title, KeyCode::Char(' ')), LineCommand::Stay);
    assert_eq!(create_task_input(&mut title, KeyCode::Enter), LineCommand::Stay);
    assert_eq!(create_task_input(&mut title, KeyCode::Char('a')), LineCommand::Stay);
    assert_eq!(title, " a");
    assert_eq!(create_task_input(&mut title, KeyCode::Enter), LineCommand::Submit);
    assert_eq!(title, " a");
    assert_eq!(create_task_input(&mut title, KeyCode::Esc), LineCommand::Cancel);
}

#[test]
fn wizard_from_title_to_confirmation() {
    let mut data = TaskWizardData::new();
    assert_eq!(data.title, "");
    assert!(data.todos.is_empty());
    assert_eq!(data.title_input(KeyCode::Enter), WizardMove::Goto(WizardStep::Title));
    assert_eq!(data.title_input(KeyCode::Char('T')), WizardMove::Goto(WizardStep::Title));
    assert_eq!(data.title_input(KeyCode::Char('x')), WizardMove::Goto(WizardStep::Title));
    assert_eq!(data.title_input(KeyCode::Backspace), WizardMove::Goto(WizardStep::Title));
    assert_eq!(data.title, "T");
    assert_eq!(data.title_input(KeyCode::Enter), WizardMove::Goto(WizardStep::Description));
    assert_eq!(data.description_input(KeyCode::Char('d')), WizardMove::Goto(WizardStep::Description));
    assert_eq!(data.description, "d");
    assert_eq!(data.description_input(KeyCode::Enter), WizardMove::Goto(WizardStep::Todos));
    assert_eq!(data.todos_input(KeyCode::Char('a')), WizardMove::Goto(WizardStep::Todos));
    assert_eq!(data.current_todo, "a");
    assert_eq!(data.todos_input(KeyCode::Enter), WizardMove::Goto(WizardStep::Todos));
    assert_eq!(data.todos, vec!["a".to_string()]);
    assert_eq!(data.current_todo, "");
    assert_eq!(data.todos_input(KeyCode::Char('b')), WizardMove::Goto(WizardStep::Todos));
    assert_eq!(data.todos_input(KeyCode::Tab), WizardMove::Goto(WizardStep::Confirm));
    assert_eq!(data.todos, vec!["a".to_string(), "b".to_string()]);
    assert_eq!(data.current_todo, "");
    assert_eq!(TaskWizardData::confirm_input(KeyCode::Enter), WizardMove::Create);
    assert_eq!(data.title, "T");
    assert_eq!(data.description, "d");
}

#[test]
fn wizard_leaves_the_todos_with_a_blank_line() {
    let mut data = TaskWizardData::new();
    assert_eq!(data.todos_input(KeyCode::Enter), WizardMove::Goto(WizardStep::Confirm));
    assert!(data.todos.is_empty());
    data.current_todo = "  ".to_string();
    assert_eq!(data.todos_input(KeyCode::Tab), WizardMove::Goto(WizardStep::Confirm));
    assert!(data.todos.is_empty());
    assert_eq!(data.current_todo, "  ");
    assert_eq!(data.todos_input(KeyCode::Enter), WizardMove::Goto(WizardStep::Confirm));
    assert!(data.todos.is_empty());
}

#[test]
fn wizard_can_be_cancelled_at_every_step() {
    let mut data = TaskWizardData::new();
    assert_eq!(data.title_input(KeyCode::Esc), WizardMove::Cancel);
    assert_eq!(data.description_input(KeyCode::Esc), WizardMove::Cancel);
    assert_eq!(data.todos_input(KeyCode::Esc), WizardMove::Cancel);
    assert_eq!(TaskWizardData::confirm_input(KeyCode::Esc), WizardMove::Cancel);
    assert_eq!(TaskWizardData::confirm_input(KeyCode::Char('n')), WizardMove::Cancel);
    assert_eq!(TaskWizardData::confirm_input(KeyCode::Char('N')), WizardMove::Cancel);
    assert_eq!(TaskWizardData::confirm_input(KeyCode::Char('y')), WizardMove::Create);
    assert_eq!(TaskWizardData::confirm_input(KeyCode::Char('Y')), WizardMove::Create);
    assert_eq!(
        TaskWizardData::confirm_input(KeyCode::Char('x')),
        WizardMove::Goto(WizardStep::Confirm)
    );
    assert_eq!(TaskWizardData::confirm_input(KeyCode::Tab), WizardMove::Goto(WizardStep::Confirm));
}
