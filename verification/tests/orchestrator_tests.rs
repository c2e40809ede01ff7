use curtains_close::orchestrator::{
    KeyAction, KeyEvent, command_plan, dispatch_key, grid_positions, overlay_window_config,
    primary_window_plan, secondary_monitors, secondary_window_plans, window_namespace,
};
use curtains_close::settings::ButtonInfo;

fn button(id: &str, keybind: char) -> ButtonInfo {
    ButtonInfo {
        id: id.to_string(),
        command: format!("run-{}", id),
        icon: String::new(),
        text: id.to_string(),
        keybind,
    }
}

#[test]
fn escape_quits() {
    let buttons = vec![button("a", 'a')];
    let ev = KeyEvent { is_escape: true, name: Some("Escape".to_string()) };
    assert_eq!(dispatch_key(&ev, &buttons), KeyAction::Quit);
}

#[test]
fn earlier_button_wins_on_a_shared_keybind() {
    let buttons = vec![button("first", 'x'), button("second", 'x'), button("third", 'y')];
    let ev = KeyEvent { is_escape: false, name: Some("x".to_string()) };
    assert_eq!(dispatch_key(&ev, &buttons), KeyAction::Activate(0));
}

#[test]
fn later_buttons_are_still_reachable() {
    let buttons = vec![button("first", 'x'), button("second", 'y')];
    let ev = KeyEvent { is_escape: false, name: Some("y".to_string()) };
    assert_eq!(dispatch_key(&ev, &buttons), KeyAction::Activate(1));
}

#[test]
fn unmatched_keys_propagate() {
    let buttons = vec![button("a", 'a')];
    let named = KeyEvent { is_escape: false, name: Some("z".to_string()) };
    assert_eq!(dispatch_key(&named, &buttons), KeyAction::Propagate);
    let nameless = KeyEvent { is_escape: false, name: None };
    assert_eq!(dispatch_key(&nameless, &buttons), KeyAction::Propagate);
    let long_name = KeyEvent { is_escape: false, name: Some("aa".to_string()) };
    assert_eq!(dispatch_key(&long_name, &buttons), KeyAction::Propagate);
}

#[test]
fn secondary_windows_cover_exactly_the_other_monitors() {
    let monitors = vec![1u64, 2, 3];
    let others = secondary_monitors(&monitors, 2);
    assert_eq!(others, vec![1u64, 3]);
    let none_focused = secondary_monitors(&monitors, 99);
    assert_eq!(none_focused, vec![1u64, 2, 3]);
    let empty = secondary_monitors(&Vec::new(), 2);
    assert!(empty.is_empty());
}

#[test]
fn exactly_one_window_grabs_the_keyboard() {
    let primary = primary_window_plan();
    assert!(primary.config.keyboard_exclusive);
    assert!(primary.monitor.is_none());
    let plans = secondary_window_plans(&vec![1u64, 2, 3], 2);
    assert_eq!(plans.len(), 2);
    assert_eq!(plans[0].monitor, Some(1));
    assert_eq!(plans[1].monitor, Some(3));
    for p in &plans {
        assert!(!p.config.keyboard_exclusive);
    }
}

#[test]
fn every_overlay_window_is_anchored_to_all_edges() {
    for primary in [true, false] {
        let c = overlay_window_config(primary);
        assert!(c.anchor_left && c.anchor_right && c.anchor_top && c.anchor_bottom);
        assert_eq!(c.exclusive_zone, -1);
        assert!(c.topmost_overlay);
        assert_eq!(c.keyboard_exclusive, primary);
    }
}

#[test]
fn overlay_windows_carry_the_layer_shell_namespace() {
    assert_eq!(window_namespace(), "curtains-close");
}

#[test]
fn buttons_wrap_at_the_row_width() {
    let positions = grid_positions(5, 2);
    assert_eq!(positions, vec![(0, 0), (1, 0), (0, 1), (1, 1), (0, 2)]);
}

#[test]
fn a_zero_row_width_stacks_buttons_vertically() {
    let positions = grid_positions(3, 0);
    assert_eq!(positions, vec![(0, 0), (0, 1), (0, 2)]);
}

#[test]
fn a_command_splits_into_program_and_arguments() {
    let plan = command_plan("  loginctl   lock-session\tnow ", true, 300).unwrap();
    assert_eq!(plan.program, "loginctl");
    assert_eq!(plan.args, vec!["lock-session".to_string(), "now".to_string()]);
    assert!(plan.terminate_on_click);
    assert_eq!(plan.terminate_delay_ms, 300);
}

#[test]
fn a_blank_command_runs_nothing() {
    assert!(command_plan("", false, 0).is_none());
    assert!(command_plan("   \t ", false, 0).is_none());
}
