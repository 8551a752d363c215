use agent::autocomplete::{commands, Autocomplete, COMMAND_COUNT};

#[test]
fn open_shows_all_commands() {
    let ac = Autocomplete::open();
    assert_eq!(ac.filtered.len(), COMMAND_COUNT);
    assert_eq!(ac.selected, 0);
}

#[test]
fn filter_narrows() {
    let mut ac = Autocomplete::open();
    ac.filter("/cl");
    assert_eq!(ac.filtered.len(), 1);
    assert_eq!(ac.selected_command(), Some("/clear"));
}

#[test]
fn filter_no_match_empties() {
    let mut ac = Autocomplete::open();
    ac.filter("/xyz");
    assert!(ac.is_empty());
}

#[test]
fn move_down_up() {
    let mut ac = Autocomplete::open();
    ac.move_down();
    assert_eq!(ac.selected, 1);
    ac.move_up();
    assert_eq!(ac.selected, 0);
}

#[test]
fn move_up_at_zero_stays() {
    let mut ac = Autocomplete::open();
    ac.move_up();
    assert_eq!(ac.selected, 0);
}

#[test]
fn move_down_at_end_stays() {
    let mut ac = Autocomplete::open();
    for _ in 0..20 {
        ac.move_down();
    }
    assert_eq!(ac.selected, COMMAND_COUNT - 1);
}

#[test]
fn filter_clamps_selected() {
    let mut ac = Autocomplete::open();
    ac.selected = 2;
    ac.filter("/cl");
    assert_eq!(ac.selected, 0);
}

#[test]
fn selected_command_when_empty() {
    let mut ac = Autocomplete::open();
    ac.filter("/xyz");
    assert_eq!(ac.selected_command(), None);
}

#[test]
fn commands_list_matches_menu() {
    let cmds = commands();
    assert_eq!(cmds.len(), COMMAND_COUNT);
    assert_eq!(cmds[0].name, "/clear");
    assert_eq!(cmds[4].name, "/mode");
    assert_eq!(cmds[3].desc, "Switch Ollama model");
}

#[test]
fn filter_shared_prefix_keeps_order() {
    let mut ac = Autocomplete::open();
    ac.selected = 4;
    ac.filter("/mo");
    assert_eq!(ac.filtered, vec![3, 4]);
    assert_eq!(ac.selected, 1);
    assert_eq!(ac.selected_command(), Some("/mode"));
}
