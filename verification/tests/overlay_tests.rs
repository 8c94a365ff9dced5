use emtk::overlay::{
    after_render, before_render, button_label, captures_input, clears_input, draws_cursor, experiment_status,
    on_menu_click, toggle, wants_cursor, AppState, InputState, MenuClick, VK_CONTROL, VK_F2, VK_F6,
    VK_MENU, VK_SHIFT, WM_KEYDOWN, WM_KEYUP, WM_LBUTTONDOWN, WM_LBUTTONUP, WM_RBUTTONDOWN,
    WM_RBUTTONUP,
};

#[test]
fn initial_state() {
    let s = AppState::initial(true);
    assert!(s.visible);
    assert!(!s.experiment_enabled && !s.show_cursor && !s.show_demo_window && !s.show_about_window);
    assert!(!AppState::initial(false).visible);
}

#[test]
fn window_messages_are_recorded_and_counted() {
    let mut i = InputState::new();
    i.on_window_message(WM_LBUTTONDOWN, 0);
    assert!(i.left_mouse_down);
    i.on_window_message(WM_RBUTTONDOWN, 0);
    assert!(i.right_mouse_down);
    i.on_window_message(WM_LBUTTONUP, 0);
    i.on_window_message(WM_RBUTTONUP, 0);
    assert!(!i.left_mouse_down && !i.right_mouse_down);
    i.on_window_message(WM_KEYDOWN, VK_CONTROL);
    i.on_window_message(WM_KEYDOWN, VK_SHIFT);
    i.on_window_message(WM_KEYDOWN, VK_MENU);
    assert!(i.ctrl_down && i.shift_down && i.alt_down);
    i.on_window_message(WM_KEYUP, VK_SHIFT);
    assert!(!i.shift_down);
    i.on_window_message(WM_KEYDOWN, VK_F2);
    i.on_window_message(WM_KEYDOWN, VK_F6);
    assert!(i.visibility_key_down && i.experiment_key_down);
    assert_eq!(i.input_events, 10);
    // other keys are counted, other messages are not
    i.on_window_message(WM_KEYDOWN, 0x41);
    assert_eq!(i.input_events, 11);
    i.on_window_message(0x0200, 0);
    assert_eq!(i.input_events, 11);
}

#[test]
fn event_count_wraps() {
    let mut i = InputState::new();
    i.input_events = u64::MAX;
    i.on_window_message(WM_LBUTTONDOWN, 0);
    assert_eq!(i.input_events, 0);
}

#[test]
fn holding_f2_toggles_once() {
    let mut s = AppState::initial(false);
    let mut i = InputState::new();
    i.on_window_message(WM_KEYDOWN, VK_F2);
    before_render(&mut s, &mut i, None);
    assert!(s.visible);
    before_render(&mut s, &mut i, None);
    before_render(&mut s, &mut i, None);
    assert!(s.visible);
    i.on_window_message(WM_KEYUP, VK_F2);
    before_render(&mut s, &mut i, None);
    assert!(s.visible);
    i.on_window_message(WM_KEYDOWN, VK_F2);
    before_render(&mut s, &mut i, None);
    assert!(!s.visible);
}

#[test]
fn f6_arms_experiments() {
    let mut s = AppState::initial(true);
    let mut i = InputState::new();
    assert_eq!(experiment_status(&s), "SAFE / OBSERVE ONLY");
    i.on_window_message(WM_KEYDOWN, VK_F6);
    before_render(&mut s, &mut i, None);
    assert!(s.experiment_enabled);
    assert_eq!(experiment_status(&s), "ARMED");
}

#[test]
fn toggle_steps() {
    assert_eq!(toggle(true, false, false), (true, true));
    assert_eq!(toggle(true, true, false), (true, false));
    assert_eq!(toggle(false, true, true), (false, true));
    assert_eq!(toggle(false, false, true), (false, true));
}

#[test]
fn cursor_and_input_decisions() {
    let mut s = AppState::initial(true);
    s.show_cursor = true;
    assert!(draws_cursor(false, &s));
    assert!(!draws_cursor(true, &s));
    assert!(!clears_input(&s));
    assert!(captures_input(&s, false, true, false));
    assert!(!captures_input(&s, false, false, false));
    s.visible = false;
    assert!(clears_input(&s));
    assert!(!captures_input(&s, true, true, true));
    assert!(wants_cursor(false, false, false, true));
    assert!(!wants_cursor(false, false, false, false));
    assert_eq!(button_label(true), "DOWN");
    assert_eq!(button_label(false), "up");
}

#[test]
fn menu_clicks() {
    let mut s = AppState::initial(true);
    on_menu_click(&mut s, MenuClick::ShowDemoWindow);
    assert!(s.show_demo_window);
    on_menu_click(&mut s, MenuClick::ShowDemoWindow);
    assert!(!s.show_demo_window);
    on_menu_click(&mut s, MenuClick::About);
    on_menu_click(&mut s, MenuClick::About);
    assert!(s.show_about_window);
}

#[test]
fn frame_setup_follows_visibility_and_cursor() {
    let mut s = AppState::initial(true);
    let mut i = InputState::new();
    s.show_cursor = true;
    let f = before_render(&mut s, &mut i, Some(false));
    assert!(f.draw_frame);
    assert!(!f.clear_input);
    assert_eq!(f.draw_cursor, Some(true));
    let f = before_render(&mut s, &mut i, Some(true));
    assert_eq!(f.draw_cursor, Some(false));
    i.on_window_message(WM_KEYDOWN, VK_F2);
    let f = before_render(&mut s, &mut i, None);
    assert!(!s.visible);
    assert!(!f.draw_frame);
    assert!(f.clear_input);
    assert_eq!(f.draw_cursor, None);
}

#[test]
fn after_render_sets_cursor_only_when_visible() {
    let mut s = AppState::initial(true);
    after_render(&mut s, false, false, true, false);
    assert!(s.show_cursor);
    after_render(&mut s, false, false, false, false);
    assert!(!s.show_cursor);
    let mut h = AppState::initial(false);
    h.show_cursor = true;
    after_render(&mut h, false, false, false, false);
    assert!(h.show_cursor);
}
