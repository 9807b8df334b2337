use joshuto::commands::cursor_move::{cursor_move, down, up};
use joshuto::commands::key_command::KeyCommand;
use joshuto::commands::parent_cursor_move::{join_path, parent_cursor_move, parent_down, parent_up};
use joshuto::commands::search::{find_hit, search_next, search_prev, SearchPattern};
use joshuto::commands::selection::{
    select_entries, select_files, select_with_pattern, select_without_pattern, SelectOption,
};
use joshuto::context::{JoshutoConfig, JoshutoContext};
use joshuto::error::JoshutoErrorKind;
use joshuto::fs::dirlist::DirRead;
use joshuto::fs::entry::Entry;
use joshuto::tab::JoshutoTab;
use joshuto::ui::layout::Rect;
use joshuto::util::event::{MouseButton, MouseEvent};
use joshuto::util::input::{
    column_ratios, mouse_action_for, process_mouse, process_mouse_in_layout, MouseAction,
    COLUMN_MARGIN,
};
use joshuto::util::sort::{SortOption, SortType};

fn by_name() -> SortOption {
    SortOption { directories_first: false, reverse: false, sort_method: SortType::Lexical }
}

fn read(names: &[&str]) -> DirRead {
    DirRead::Entries(names.iter().map(|n| Entry::new(n.to_string(), n.ends_with('d'), 1, 1)).collect())
}

fn session(names: &[&str]) -> JoshutoContext {
    let mut tab = JoshutoTab::new("/home/me".to_string(), Some("/home".to_string()));
    assert!(tab.history_mut().get_or_load("/home/me", &read(names), &by_name()).is_ok());
    assert!(tab.history_mut().get_or_load("/home", &read(&["a.d", "file", "me.d", "z.d"]), &by_name()).is_ok());
    let config = JoshutoConfig { sort_option: by_name(), column_ratio: (1, 3, 4) };
    JoshutoContext::new(config, tab)
}

fn unloaded() -> JoshutoContext {
    let config = JoshutoConfig { sort_option: by_name(), column_ratio: (1, 3, 4) };
    JoshutoContext::new(config, JoshutoTab::new("/nowhere".to_string(), None))
}

fn selected(context: &JoshutoContext) -> Vec<String> {
    context.curr_list_ref().unwrap().selected_file_names()
}

fn cursor(context: &JoshutoContext) -> Option<usize> {
    context.curr_list_ref().unwrap().index()
}

fn parent_cursor(context: &JoshutoContext) -> Option<usize> {
    context.parent_list_ref().unwrap().index()
}

fn layout() -> [Rect; 3] {
    [
        Rect { x: 0, y: 1, width: 10, height: 22 },
        Rect { x: 10, y: 1, width: 30, height: 22 },
        Rect { x: 40, y: 1, width: 40, height: 22 },
    ]
}

const PLAIN: SelectOption = SelectOption { toggle: false, all: false, reverse: false };
const ALL: SelectOption = SelectOption { toggle: false, all: true, reverse: false };

#[test]
fn the_cursor_moves_within_the_listing() {
    let mut context = session(&["a", "b", "c", "d"]);
    assert_eq!(cursor(&context), Some(0));
    cursor_move(2, &mut context);
    assert_eq!(cursor(&context), Some(2));
    down(&mut context, 1);
    assert_eq!(cursor(&context), Some(3));
    down(&mut context, 5);
    assert_eq!(cursor(&context), Some(3));
    down(&mut context, usize::MAX);
    assert_eq!(cursor(&context), Some(3));
    up(&mut context, 2);
    assert_eq!(cursor(&context), Some(1));
    up(&mut context, 1);
    assert_eq!(cursor(&context), Some(0));
    up(&mut context, 9);
    assert_eq!(cursor(&context), Some(0));
    cursor_move(99, &mut context);
    assert_eq!(cursor(&context), Some(3));
}

#[test]
fn cursor_commands_leave_a_session_without_listing_alone() {
    let mut context = unloaded();
    cursor_move(2, &mut context);
    up(&mut context, 1);
    down(&mut context, 1);
    parent_cursor_move(1, &mut context);
    parent_up(&mut context, 1);
    parent_down(&mut context, 1);
    assert!(context.curr_list_ref().is_none());
    assert_eq!(context.curr_tab_ref().pwd(), "/nowhere");
    assert!(select_without_pattern(&mut context, &ALL).is_ok());
    assert!(select_with_pattern(&mut context, "*", &ALL).is_ok());
    assert!(search_next(&mut context).is_ok());
}

#[test]
fn an_empty_listing_has_no_cursor_to_move() {
    let mut context = session(&[]);
    cursor_move(0, &mut context);
    down(&mut context, 1);
    assert_eq!(cursor(&context), None);
    assert!(select_without_pattern(&mut context, &PLAIN).is_ok());
    assert!(selected(&context).is_empty());
}

#[test]
fn the_parent_cursor_moves_onto_directories_and_the_tab_follows() {
    let mut context = session(&["x"]);
    assert_eq!(parent_cursor(&context), Some(0));
    parent_cursor_move(2, &mut context);
    assert_eq!(parent_cursor(&context), Some(2));
    assert_eq!(context.curr_tab_ref().pwd(), "/home/me.d");
    parent_cursor_move(1, &mut context);
    assert_eq!(parent_cursor(&context), Some(2));
    assert_eq!(context.curr_tab_ref().pwd(), "/home/me.d");
    parent_cursor_move(50, &mut context);
    assert_eq!(parent_cursor(&context), Some(3));
    assert_eq!(context.curr_tab_ref().pwd(), "/home/z.d");
    parent_up(&mut context, 3);
    assert_eq!(parent_cursor(&context), Some(0));
    assert_eq!(context.curr_tab_ref().pwd(), "/home/a.d");
    parent_down(&mut context, 1);
    assert_eq!(parent_cursor(&context), Some(0));
    assert_eq!(context.curr_tab_ref().pwd(), "/home/a.d");
    parent_down(&mut context, 2);
    assert_eq!(parent_cursor(&context), Some(2));
    assert_eq!(context.curr_tab_ref().parent(), Some("/home"));
}

#[test]
fn paths_are_joined_with_one_slash() {
    assert_eq!(join_path("/home", "me"), "/home/me");
    assert_eq!(join_path("/", "etc"), "/etc");
    assert_eq!(join_path("/home/", "me"), "/home/me");
    assert_eq!(join_path("", "x"), "/x");
}

#[test]
fn key_commands_move_the_cursors() {
    let mut context = session(&["a", "b", "c"]);
    KeyCommand::CursorMoveDown(2).execute(&mut context);
    assert_eq!(cursor(&context), Some(2));
    KeyCommand::CursorMoveUp(1).execute(&mut context);
    assert_eq!(cursor(&context), Some(1));
    KeyCommand::ParentCursorMoveDown(2).execute(&mut context);
    assert_eq!(parent_cursor(&context), Some(2));
    KeyCommand::ParentCursorMoveUp(2).execute(&mut context);
    assert_eq!(parent_cursor(&context), Some(0));
}

#[test]
fn selecting_without_pattern_marks_the_entry_under_the_cursor_and_moves_on() {
    let mut context = session(&["a", "b", "c"]);
    assert!(select_without_pattern(&mut context, &PLAIN).is_ok());
    assert_eq!(selected(&context), vec!["a"]);
    assert_eq!(cursor(&context), Some(1));
    let toggle = SelectOption { toggle: true, all: false, reverse: false };
    assert!(select_files(&mut context, "", &toggle).is_ok());
    assert_eq!(selected(&context), vec!["a", "b"]);
    assert_eq!(cursor(&context), Some(2));
    assert!(select_files(&mut context, "", &toggle).is_ok());
    assert_eq!(selected(&context), vec!["a", "b", "c"]);
    assert_eq!(cursor(&context), Some(2));
    assert!(select_files(&mut context, "", &toggle).is_ok());
    assert_eq!(selected(&context), vec!["a", "b"]);
    let deselect = SelectOption { toggle: true, all: false, reverse: true };
    cursor_move(0, &mut context);
    assert!(select_files(&mut context, "", &deselect).is_ok());
    assert_eq!(selected(&context), vec!["b"]);
    assert_eq!(cursor(&context), Some(1));
}

#[test]
fn selecting_all_applies_to_every_entry() {
    let mut context = session(&["a", "b", "c"]);
    cursor_move(1, &mut context);
    assert!(select_without_pattern(&mut context, &PLAIN).is_ok());
    let toggle_all = SelectOption { toggle: true, all: true, reverse: false };
    assert!(select_without_pattern(&mut context, &toggle_all).is_ok());
    assert_eq!(selected(&context), vec!["a", "c"]);
    assert_eq!(cursor(&context), Some(2));
    assert!(select_without_pattern(&mut context, &ALL).is_ok());
    assert_eq!(selected(&context), vec!["a", "b", "c"]);
    let none = SelectOption { toggle: false, all: true, reverse: true };
    assert!(select_without_pattern(&mut context, &none).is_ok());
    assert!(selected(&context).is_empty());
}

#[test]
fn selecting_with_a_glob_marks_the_names_it_matches() {
    let mut context = session(&["lib.rs", "main.rs", "notes.txt", "rs"]);
    assert!(select_files(&mut context, "*.rs", &PLAIN).is_ok());
    assert_eq!(selected(&context), vec!["lib.rs", "main.rs"]);
    assert_eq!(cursor(&context), Some(0));
    let toggle = SelectOption { toggle: true, all: false, reverse: false };
    assert!(select_with_pattern(&mut context, "*", &toggle).is_ok());
    assert_eq!(selected(&context), vec!["notes.txt", "rs"]);
    let deselect = SelectOption { toggle: false, all: false, reverse: true };
    assert!(select_with_pattern(&mut context, "n*", &deselect).is_ok());
    assert_eq!(selected(&context), vec!["rs"]);
    assert!(select_with_pattern(&mut context, "{lib,main}.?s", &PLAIN).is_ok());
    assert_eq!(selected(&context), vec!["lib.rs", "main.rs", "rs"]);
}

#[test]
fn a_malformed_glob_is_an_error_and_selects_nothing() {
    let mut context = session(&["a", "[", "[a"]);
    let err = select_files(&mut context, "[a", &ALL).unwrap_err();
    assert_eq!(err.kind(), JoshutoErrorKind::IoInvalidData);
    assert_eq!(err.cause(), "Invalid glob input");
    assert!(selected(&context).is_empty());
    let err = select_with_pattern(&mut unloaded(), "{a", &PLAIN).unwrap_err();
    assert_eq!(err.kind(), JoshutoErrorKind::IoInvalidData);
}

#[test]
fn marks_decide_which_entries_a_selection_touches() {
    let mut context = session(&["a", "b", "c"]);
    select_entries(&mut context, &vec![true, false, true], &PLAIN);
    assert_eq!(selected(&context), vec!["a", "c"]);
    let toggle = SelectOption { toggle: true, all: false, reverse: false };
    select_entries(&mut context, &vec![true, true, false], &toggle);
    assert_eq!(selected(&context), vec!["b", "c"]);
    let deselect = SelectOption { toggle: true, all: false, reverse: true };
    select_entries(&mut context, &vec![false, true, false], &deselect);
    assert_eq!(selected(&context), vec!["c"]);
    select_entries(&mut context, &vec![false, false, false], &PLAIN);
    assert_eq!(selected(&context), vec!["c"]);
}

#[test]
fn a_search_walks_around_the_listing() {
    let hits = vec![true, false, true, false];
    assert_eq!(find_hit(&hits, Some(0), true), Some(2));
    assert_eq!(find_hit(&hits, Some(2), true), Some(0));
    assert_eq!(find_hit(&hits, Some(3), true), Some(0));
    assert_eq!(find_hit(&hits, Some(0), false), Some(2));
    assert_eq!(find_hit(&hits, Some(1), false), Some(0));
    assert_eq!(find_hit(&hits, Some(2), false), Some(0));
    assert_eq!(find_hit(&vec![false, true], Some(1), true), Some(1));
    assert_eq!(find_hit(&vec![false, true], Some(1), false), Some(1));
    assert_eq!(find_hit(&vec![false, false], Some(1), true), None);
    assert_eq!(find_hit(&hits, None, true), None);
    assert_eq!(find_hit(&vec![], None, false), None);
    assert_eq!(find_hit(&vec![true], Some(0), true), Some(0));
}

#[test]
fn a_text_is_searched_for_in_lower_case_names() {
    let mut context = session(&["Alpha", "BETA", "beta2", "gamma"]);
    context.set_search_state(SearchPattern::String("beta".to_string()));
    assert_eq!(context.get_search_state(), Some(&SearchPattern::String("beta".to_string())));
    assert!(search_next(&mut context).is_ok());
    assert_eq!(cursor(&context), Some(1));
    assert!(search_next(&mut context).is_ok());
    assert_eq!(cursor(&context), Some(2));
    assert!(search_next(&mut context).is_ok());
    assert_eq!(cursor(&context), Some(1));
    assert!(search_prev(&mut context).is_ok());
    assert_eq!(cursor(&context), Some(2));
    assert!(search_prev(&mut context).is_ok());
    assert_eq!(cursor(&context), Some(1));
    context.set_search_state(SearchPattern::String("Beta".to_string()));
    assert!(search_next(&mut context).is_ok());
    assert_eq!(cursor(&context), Some(1));
    context.set_search_state(SearchPattern::String("mm".to_string()));
    assert!(search_prev(&mut context).is_ok());
    assert_eq!(cursor(&context), Some(3));
    assert!(search_next(&mut context).is_ok());
    assert_eq!(cursor(&context), Some(3));
}

#[test]
fn a_glob_is_searched_for_forward_in_both_directions() {
    let mut context = session(&["a.rs", "b.txt", "c.rs", "d.rs"]);
    context.set_search_state(SearchPattern::Glob("*.rs".to_string()));
    assert!(search_next(&mut context).is_ok());
    assert_eq!(cursor(&context), Some(2));
    assert!(search_prev(&mut context).is_ok());
    assert_eq!(cursor(&context), Some(3));
    assert!(search_prev(&mut context).is_ok());
    assert_eq!(cursor(&context), Some(0));
    context.set_search_state(SearchPattern::Glob("[".to_string()));
    assert!(search_next(&mut context).is_ok());
    assert_eq!(cursor(&context), Some(0));
    context.set_search_state(SearchPattern::Glob("*.md".to_string()));
    assert!(search_next(&mut context).is_ok());
    assert_eq!(cursor(&context), Some(0));
}

#[test]
fn a_search_without_pattern_changes_nothing() {
    let mut context = session(&["a", "b"]);
    assert!(context.get_search_state().is_none());
    assert!(search_next(&mut context).is_ok());
    assert!(search_prev(&mut context).is_ok());
    assert_eq!(cursor(&context), Some(0));
}

#[test]
fn the_wheel_moves_the_cursor_of_the_column_it_is_over() {
    let l = layout();
    let up = |x: u16| mouse_action_for(MouseEvent::Press(MouseButton::WheelUp, x, 5), &l, Some(3));
    let down = |x: u16| mouse_action_for(MouseEvent::Press(MouseButton::WheelDown, x, 5), &l, None);
    assert_eq!(up(0), MouseAction::Execute(KeyCommand::ParentCursorMoveUp(1)));
    assert_eq!(up(9), MouseAction::Execute(KeyCommand::ParentCursorMoveUp(1)));
    assert_eq!(up(10), MouseAction::Execute(KeyCommand::CursorMoveUp(1)));
    assert_eq!(up(39), MouseAction::Execute(KeyCommand::CursorMoveUp(1)));
    assert_eq!(up(40), MouseAction::Execute(KeyCommand::CursorMoveUp(1)));
    assert_eq!(down(3), MouseAction::Execute(KeyCommand::ParentCursorMoveDown(1)));
    assert_eq!(down(20), MouseAction::Execute(KeyCommand::CursorMoveDown(1)));
    assert_eq!(down(70), MouseAction::Execute(KeyCommand::CursorMoveDown(1)));
}

#[test]
fn a_click_puts_the_cursor_on_the_row_of_the_page_shown() {
    let l = layout();
    let click = |x: u16, y: u16, at: Option<usize>| mouse_action_for(MouseEvent::Press(MouseButton::Left, x, y), &l, at);
    assert_eq!(click(15, 2, Some(0)), MouseAction::CursorMove(0));
    assert_eq!(click(15, 6, Some(3)), MouseAction::CursorMove(4));
    assert_eq!(click(15, 6, Some(21)), MouseAction::CursorMove(4));
    assert_eq!(click(15, 6, Some(22)), MouseAction::CursorMove(26));
    assert_eq!(click(15, 23, Some(50)), MouseAction::CursorMove(65));
    assert_eq!(click(5, 3, Some(45)), MouseAction::ParentCursorMove(45));
    assert_eq!(click(15, 1, Some(0)), MouseAction::Nothing);
    assert_eq!(click(15, 0, Some(0)), MouseAction::Nothing);
    assert_eq!(click(15, 24, Some(0)), MouseAction::Nothing);
    assert_eq!(click(40, 5, Some(0)), MouseAction::Nothing);
    assert_eq!(click(15, 5, None), MouseAction::Nothing);
    assert_eq!(click(15, 2, Some(usize::MAX)), MouseAction::CursorMove(usize::MAX - usize::MAX % 22));
    assert_eq!(click(15, 23, Some(usize::MAX)), MouseAction::CursorMove(usize::MAX));
}

#[test]
fn other_mouse_events_ask_for_nothing() {
    let l = layout();
    assert_eq!(mouse_action_for(MouseEvent::Release(15, 5), &l, Some(0)), MouseAction::Nothing);
    assert_eq!(mouse_action_for(MouseEvent::Hold(15, 5), &l, Some(0)), MouseAction::Nothing);
    assert_eq!(mouse_action_for(MouseEvent::Press(MouseButton::Right, 15, 5), &l, Some(0)), MouseAction::Nothing);
    assert_eq!(mouse_action_for(MouseEvent::Press(MouseButton::Middle, 15, 5), &l, Some(0)), MouseAction::Nothing);
}

#[test]
fn a_mouse_event_is_carried_out_on_the_session() {
    let mut context = session(&["a", "b", "c", "d"]);
    let l = layout();
    process_mouse_in_layout(MouseEvent::Press(MouseButton::WheelDown, 20, 5), &mut context, &l);
    assert_eq!(cursor(&context), Some(1));
    process_mouse_in_layout(MouseEvent::Press(MouseButton::Left, 20, 4), &mut context, &l);
    assert_eq!(cursor(&context), Some(2));
    process_mouse_in_layout(MouseEvent::Press(MouseButton::Left, 20, 20), &mut context, &l);
    assert_eq!(cursor(&context), Some(3));
    process_mouse_in_layout(MouseEvent::Press(MouseButton::WheelUp, 60, 5), &mut context, &l);
    assert_eq!(cursor(&context), Some(2));
    process_mouse_in_layout(MouseEvent::Press(MouseButton::WheelDown, 2, 5), &mut context, &l);
    assert_eq!(parent_cursor(&context), Some(0));
    process_mouse_in_layout(MouseEvent::Press(MouseButton::Left, 2, 4), &mut context, &l);
    assert_eq!(parent_cursor(&context), Some(2));
    assert_eq!(context.curr_tab_ref().pwd(), "/home/me.d");
    assert!(context.curr_list_ref().is_none());
}

#[test]
fn the_columns_of_a_terminal_follow_the_ratio() {
    let area = Rect { x: 0, y: 0, width: 80, height: 24 };
    let mut context = session(&["a", "b", "c", "d"]);
    process_mouse(MouseEvent::Press(MouseButton::WheelDown, 5, 5), &mut context, area);
    assert_eq!(cursor(&context), Some(0));
    assert_eq!(parent_cursor(&context), Some(0));
    process_mouse(MouseEvent::Press(MouseButton::WheelDown, 20, 5), &mut context, area);
    assert_eq!(cursor(&context), Some(1));
    process_mouse(MouseEvent::Press(MouseButton::Left, 20, 4), &mut context, area);
    assert_eq!(cursor(&context), Some(2));
    process_mouse(MouseEvent::Press(MouseButton::Left, 60, 2), &mut context, area);
    assert_eq!(cursor(&context), Some(2));
    process_mouse(MouseEvent::Press(MouseButton::Left, 5, 5), &mut context, area);
    assert_eq!(parent_cursor(&context), Some(3));
    assert_eq!(context.curr_tab_ref().pwd(), "/home/z.d");
}

#[test]
fn the_layout_engine_is_asked_for_each_width_over_the_sum() {
    assert_eq!(column_ratios((1, 3, 4)), vec![(1, 8), (3, 8), (4, 8)]);
    assert_eq!(column_ratios((0, 0, 5)), vec![(0, 5), (0, 5), (5, 5)]);
    assert_eq!(
        column_ratios((u16::MAX, u16::MAX, u16::MAX)),
        vec![(65535, 196605), (65535, 196605), (65535, 196605)]
    );
    assert_eq!(column_ratios((0, 0, 0)), vec![(0, 0), (0, 0), (0, 0)]);
    assert_eq!(COLUMN_MARGIN, 1);
}

#[test]
fn a_terminal_that_ends_on_the_last_row_can_be_laid_out() {
    let mut context = session(&["a", "b", "c"]);
    let tall = Rect { x: 0, y: 65000, width: 80, height: 536 };
    process_mouse(MouseEvent::Press(MouseButton::WheelDown, 20, 65005), &mut context, tall);
    assert_eq!(cursor(&context), Some(1));
    let flat = Rect { x: 0, y: u16::MAX, width: 80, height: 1 };
    process_mouse(MouseEvent::Press(MouseButton::WheelDown, 20, 5), &mut context, flat);
    assert_eq!(cursor(&context), Some(2));
}
