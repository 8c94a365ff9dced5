//! The in-game overlay of the framework: what it shows, which window messages
//! it records, and how its hotkeys toggle it.

use vstd::prelude::*;

verus! {

/// Window message sent when the left mouse button goes down (`WM_LBUTTONDOWN`).
pub const WM_LBUTTONDOWN: u32 = 0x0201;
/// Window message sent when the left mouse button goes up (`WM_LBUTTONUP`).
pub const WM_LBUTTONUP: u32 = 0x0202;
/// Window message sent when the right mouse button goes down (`WM_RBUTTONDOWN`).
pub const WM_RBUTTONDOWN: u32 = 0x0204;
/// Window message sent when the right mouse button goes up (`WM_RBUTTONUP`).
pub const WM_RBUTTONUP: u32 = 0x0205;
/// Window message sent when a key goes down (`WM_KEYDOWN`).
pub const WM_KEYDOWN: u32 = 0x0100;
/// Window message sent when a key goes up (`WM_KEYUP`).
pub const WM_KEYUP: u32 = 0x0101;
/// Virtual key of F2, which shows and hides the overlay (`VK_F2`).
pub const VK_F2: u16 = 0x71;
/// Virtual key of F6, which arms and disarms experiments (`VK_F6`).
pub const VK_F6: u16 = 0x75;
/// Virtual key of Ctrl (`VK_CONTROL`).
pub const VK_CONTROL: u16 = 0x11;
/// Virtual key of Shift (`VK_SHIFT`).
pub const VK_SHIFT: u16 = 0x10;
/// Virtual key of Alt (`VK_MENU`).
pub const VK_MENU: u16 = 0x12;

/// What the overlay shows and whether experiments are armed.
#[derive(Debug, Clone, Copy, PartialEq, Eq, Structural)]
pub struct AppState {
    pub experiment_enabled: bool,
    pub visible: bool,
    pub show_cursor: bool,
    pub show_demo_window: bool,
    pub show_about_window: bool,
}

impl AppState {
    /// The state the overlay starts in: experiments safe, no extra windows,
    /// visible as asked (debug builds start visible, release builds hidden).
    pub fn initial(visible: bool) -> (s: AppState)
        ensures
            s == (AppState {
                experiment_enabled: false,
                visible,
                show_cursor: false,
                show_demo_window: false,
                show_about_window: false,
            }),
    {
        AppState {
            experiment_enabled: false,
            visible,
            show_cursor: false,
            show_demo_window: false,
            show_about_window: false,
        }
    }
}

/// What the window procedure has recorded of the player's input.
#[derive(Debug, Clone, Copy, PartialEq, Eq, Structural)]
pub struct InputState {
    pub visibility_key_down: bool,
    pub visibility_toggled: bool,
    pub experiment_key_down: bool,
    pub experiment_toggled: bool,
    pub left_mouse_down: bool,
    pub right_mouse_down: bool,
    pub ctrl_down: bool,
    pub shift_down: bool,
    pub alt_down: bool,
    /// How many recorded messages there were, counted modulo 2^64.
    pub input_events: u64,
}

/// What a window message does to the recorded input, or `None` when the
/// message is not one the overlay records.
pub open spec fn spec_record(s: InputState, umsg: u32, key: u16) -> Option<InputState> {
    let counted = |t: InputState| InputState {
        input_events: if t.input_events == u64::MAX { 0 } else { (t.input_events + 1) as u64 },
        ..t
    };
    if umsg == WM_LBUTTONDOWN {
        Some(counted(InputState { left_mouse_down: true, ..s }))
    } else if umsg == WM_LBUTTONUP {
        Some(counted(InputState { left_mouse_down: false, ..s }))
    } else if umsg == WM_RBUTTONDOWN {
        Some(counted(InputState { right_mouse_down: true, ..s }))
    } else if umsg == WM_RBUTTONUP {
        Some(counted(InputState { right_mouse_down: false, ..s }))
    } else if umsg == WM_KEYDOWN || umsg == WM_KEYUP {
        let down = umsg == WM_KEYDOWN;
        let t = if key == VK_F2 {
            InputState { visibility_key_down: down, ..s }
        } else if key == VK_F6 {
            InputState { experiment_key_down: down, ..s }
        } else if key == VK_CONTROL {
            InputState { ctrl_down: down, ..s }
        } else if key == VK_SHIFT {
            InputState { shift_down: down, ..s }
        } else if key == VK_MENU {
            InputState { alt_down: down, ..s }
        } else {
            s
        };
        Some(counted(t))
    } else {
        None
    }
}

/// A key message sets the recorded state of the key it names to whether the
/// key went down, leaves every other key and button as it was, and counts
/// one event; a key up of F6 in particular releases F6.
pub proof fn lemma_key_message_records_key(s: InputState, umsg: u32, key: u16)
    requires
        umsg == WM_KEYDOWN || umsg == WM_KEYUP,
    ensures
        spec_record(s, umsg, key) matches Some(t) && {
            &&& t.visibility_key_down == (if key == VK_F2 { umsg == WM_KEYDOWN } else { s.visibility_key_down })
            &&& t.experiment_key_down == (if key == VK_F6 { umsg == WM_KEYDOWN } else { s.experiment_key_down })
            &&& t.ctrl_down == (if key == VK_CONTROL { umsg == WM_KEYDOWN } else { s.ctrl_down })
            &&& t.shift_down == (if key == VK_SHIFT { umsg == WM_KEYDOWN } else { s.shift_down })
            &&& t.alt_down == (if key == VK_MENU { umsg == WM_KEYDOWN } else { s.alt_down })
            &&& t.left_mouse_down == s.left_mouse_down
            &&& t.right_mouse_down == s.right_mouse_down
            &&& t.visibility_toggled == s.visibility_toggled
            &&& t.experiment_toggled == s.experiment_toggled
            &&& t.input_events == (if s.input_events == u64::MAX { 0 } else { s.input_events + 1 })
        },
{
}

/// Pressing F6, releasing it, and pressing it again, with a frame after each
/// message, arms the experiments and then disarms them.
pub proof fn lemma_f6_press_release_press_disarms(s0: InputState, a0: AppState)
    requires
        !s0.experiment_key_down,
        !s0.experiment_toggled,
        !a0.experiment_enabled,
    ensures
        ({
            let s1 = spec_record(s0, WM_KEYDOWN, VK_F6)->0;
            let (l1, e1) = spec_toggle(s1.experiment_key_down, s1.experiment_toggled, a0.experiment_enabled);
            let s2 = spec_record(InputState { experiment_toggled: l1, ..s1 }, WM_KEYUP, VK_F6)->0;
            let (l2, e2) = spec_toggle(s2.experiment_key_down, s2.experiment_toggled, e1);
            let s3 = spec_record(InputState { experiment_toggled: l2, ..s2 }, WM_KEYDOWN, VK_F6)->0;
            let (l3, e3) = spec_toggle(s3.experiment_key_down, s3.experiment_toggled, e2);
            e1 && e2 && !e3
        }),
{
    lemma_key_message_records_key(s0, WM_KEYDOWN, VK_F6);
    let s1 = spec_record(s0, WM_KEYDOWN, VK_F6)->0;
    let (l1, e1) = spec_toggle(s1.experiment_key_down, s1.experiment_toggled, a0.experiment_enabled);
    lemma_key_message_records_key(InputState { experiment_toggled: l1, ..s1 }, WM_KEYUP, VK_F6);
    let s2 = spec_record(InputState { experiment_toggled: l1, ..s1 }, WM_KEYUP, VK_F6)->0;
    let (l2, e2) = spec_toggle(s2.experiment_key_down, s2.experiment_toggled, e1);
    lemma_key_message_records_key(InputState { experiment_toggled: l2, ..s2 }, WM_KEYDOWN, VK_F6);
}

impl InputState {
    /// Nothing pressed, nothing counted.
    pub fn new() -> (s: InputState)
        ensures
            s == (InputState {
                visibility_key_down: false,
                visibility_toggled: false,
                experiment_key_down: false,
                experiment_toggled: false,
                left_mouse_down: false,
                right_mouse_down: false,
                ctrl_down: false,
                shift_down: false,
                alt_down: false,
                input_events: 0,
            }),
    {
        InputState {
            visibility_key_down: false,
            visibility_toggled: false,
            experiment_key_down: false,
            experiment_toggled: false,
            left_mouse_down: false,
            right_mouse_down: false,
            ctrl_down: false,
            shift_down: false,
            alt_down: false,
            input_events: 0,
        }
    }

    /// Records a window message `umsg` whose key (for key messages) is `key`:
    /// mouse buttons and the watched keys go down or up, and every recorded
    /// message is counted. Other messages change nothing.
    pub fn on_window_message(&mut self, umsg: u32, key: u16)
        ensures
            match spec_record(*old(self), umsg, key) {
                Some(t) => *final(self) == t,
                None => *final(self) == *old(self),
            },
            umsg == WM_KEYDOWN || umsg == WM_KEYUP ==> {
                &&& key == VK_F2 ==> final(self).visibility_key_down == (umsg == WM_KEYDOWN)
                &&& key == VK_F6 ==> final(self).experiment_key_down == (umsg == WM_KEYDOWN)
                &&& key == VK_CONTROL ==> final(self).ctrl_down == (umsg == WM_KEYDOWN)
                &&& key == VK_SHIFT ==> final(self).shift_down == (umsg == WM_KEYDOWN)
                &&& key == VK_MENU ==> final(self).alt_down == (umsg == WM_KEYDOWN)
            },
            umsg == WM_LBUTTONDOWN ==> final(self).left_mouse_down,
            umsg == WM_LBUTTONUP ==> !final(self).left_mouse_down,
            umsg == WM_RBUTTONDOWN ==> final(self).right_mouse_down,
            umsg == WM_RBUTTONUP ==> !final(self).right_mouse_down,
    {
        if umsg == WM_LBUTTONDOWN {
            self.left_mouse_down = true;
        } else if umsg == WM_LBUTTONUP {
            self.left_mouse_down = false;
        } else if umsg == WM_RBUTTONDOWN {
            self.right_mouse_down = true;
        } else if umsg == WM_RBUTTONUP {
            self.right_mouse_down = false;
        } else if umsg == WM_KEYDOWN || umsg == WM_KEYUP {
            let down = umsg == WM_KEYDOWN;
            if key == VK_F2 {
                self.visibility_key_down = down;
            } else if key == VK_F6 {
                self.experiment_key_down = down;
            } else if key == VK_CONTROL {
                self.ctrl_down = down;
            } else if key == VK_SHIFT {
                self.shift_down = down;
            } else if key == VK_MENU {
                self.alt_down = down;
            }
        } else {
            return;
        }
        self.input_events = self.input_events.wrapping_add(1);
    }
}

/// One frame of a hotkey that toggles a flag: while the key is down the flag
/// flips once, on the frame the key is first seen down; `latched` remembers
/// that the key was seen down. Returns the new `(latched, flag)`.
pub open spec fn spec_toggle(key_down: bool, latched: bool, flag: bool) -> (bool, bool) {
    if key_down && !latched {
        (true, !flag)
    } else if key_down {
        (true, flag)
    } else {
        (false, flag)
    }
}

/// One frame of a hotkey: see [`spec_toggle`].
pub fn toggle(key_down: bool, latched: bool, flag: bool) -> (r: (bool, bool))
    ensures
        r == spec_toggle(key_down, latched, flag),
{
    if key_down && !latched {
        (key_down, !flag)
    } else if !key_down {
        (false, flag)
    } else {
        (true, flag)
    }
}

/// What the UI is told before a frame is drawn.
#[derive(Debug, Clone, Copy, PartialEq, Eq, Structural)]
pub struct FrameSetup {
    /// The frame is drawn at full scale; otherwise at scale zero, so that
    /// nothing shows.
    pub draw_frame: bool,
    /// The UI's pressed mouse buttons and keys are released.
    pub clear_input: bool,
    /// Whether the UI draws its own cursor, or `None` to leave that as it is.
    pub draw_cursor: Option<bool>,
}

/// What happens before a frame is drawn: the F2 and F6 hotkeys toggle the
/// overlay's visibility and the experiments; then a visible overlay is drawn,
/// a hidden one is drawn at scale zero with the UI's input released, and,
/// when the system cursor's state could be read (`cursor_is_visible`), the UI
/// draws its own cursor where the system hides it and the overlay wants one.
pub fn before_render(state: &mut AppState, input: &mut InputState, cursor_is_visible: Option<bool>) -> (r: FrameSetup)
    ensures
        r.draw_frame == final(state).visible,
        r.clear_input == !final(state).visible,
        r.draw_cursor == (match cursor_is_visible {
            Some(c) => Some(!c && final(state).show_cursor),
            None => None,
        }),
        (final(input).visibility_toggled, final(state).visible) == spec_toggle(
            old(input).visibility_key_down, old(input).visibility_toggled, old(state).visible),
        (final(input).experiment_toggled, final(state).experiment_enabled) == spec_toggle(
            old(input).experiment_key_down, old(input).experiment_toggled, old(state).experiment_enabled),
        *final(state) == (AppState { visible: final(state).visible, experiment_enabled: final(state).experiment_enabled, ..*old(state) }),
        *final(input) == (InputState {
            visibility_toggled: final(input).visibility_toggled,
            experiment_toggled: final(input).experiment_toggled,
            ..*old(input)
        }),
{
    let (vl, v) = toggle(input.visibility_key_down, input.visibility_toggled, state.visible);
    input.visibility_toggled = vl;
    state.visible = v;
    let (el, e) = toggle(input.experiment_key_down, input.experiment_toggled, state.experiment_enabled);
    input.experiment_toggled = el;
    state.experiment_enabled = e;
    let draw_cursor = match cursor_is_visible {
        Some(c) => Some(draws_cursor(c, state)),
        None => None,
    };
    FrameSetup { draw_frame: state.visible, clear_input: clears_input(state), draw_cursor }
}

/// Holding a hotkey down over two frames toggles its flag at most once: the
/// second frame leaves the flag as the first left it.
pub proof fn lemma_held_key_toggles_once(latched: bool, flag: bool)
    ensures
        spec_toggle(true, spec_toggle(true, latched, flag).0, spec_toggle(true, latched, flag).1).1
            == spec_toggle(true, latched, flag).1,
{
}

/// Pressing a hotkey after it was released flips its flag.
pub proof fn lemma_press_after_release_toggles(latched: bool, flag: bool)
    ensures
        spec_toggle(true, spec_toggle(false, latched, flag).0, spec_toggle(false, latched, flag).1).1 == !flag,
{
}

/// Whether the overlay draws its own mouse cursor: when the game hides the
/// cursor and the overlay wants one.
pub fn draws_cursor(cursor_is_visible: bool, state: &AppState) -> (r: bool)
    ensures
        r == (!cursor_is_visible && state.show_cursor),
{
    !cursor_is_visible && state.show_cursor
}

/// Whether the player's input is to be cleared before a frame: while the
/// overlay is hidden.
pub fn clears_input(state: &AppState) -> (r: bool)
    ensures
        r == !state.visible,
{
    !state.visible
}

/// Whether the overlay takes all input from the game: while it is visible and
/// wants the mouse, the keyboard or text.
pub fn captures_input(state: &AppState, want_mouse: bool, want_keyboard: bool, want_text: bool) -> (r: bool)
    ensures
        r == (state.visible && (want_mouse || want_keyboard || want_text)),
{
    state.visible && (want_mouse || want_keyboard || want_text)
}

/// Whether the overlay wants a cursor after a frame: when an item is hovered
/// or active, the left mouse button drags, or one of its windows is hovered.
pub fn wants_cursor(any_item_hovered: bool, any_item_active: bool, dragging: bool, window_hovered: bool) -> (r: bool)
    ensures
        r == (any_item_hovered || any_item_active || dragging || window_hovered),
{
    any_item_hovered || any_item_active || dragging || window_hovered
}

/// After a frame is drawn: a visible overlay keeps whether it wants a cursor
/// (see [`wants_cursor`]); a hidden one drew nothing and keeps its state.
pub fn after_render(
    state: &mut AppState,
    any_item_hovered: bool,
    any_item_active: bool,
    dragging: bool,
    window_hovered: bool,
)
    ensures
        *final(state) == (if old(state).visible {
            AppState {
                show_cursor: any_item_hovered || any_item_active || dragging || window_hovered,
                ..*old(state)
            }
        } else {
            *old(state)
        }),
{
    if state.visible {
        state.show_cursor = wants_cursor(any_item_hovered, any_item_active, dragging, window_hovered);
    }
}

/// The experiment status shown in the diagnostics window.
pub fn experiment_status(state: &AppState) -> (s: &'static str)
    ensures
        s@ == (if state.experiment_enabled { "ARMED"@ } else { "SAFE / OBSERVE ONLY"@ }),
{
    if state.experiment_enabled { "ARMED" } else { "SAFE / OBSERVE ONLY" }
}

/// How a mouse button is shown in the diagnostics window.
pub fn button_label(down: bool) -> (s: &'static str)
    ensures
        s@ == (if down { "DOWN"@ } else { "up"@ }),
{
    if down { "DOWN" } else { "up" }
}

/// A click on a menu item of the overlay's main window.
#[derive(Debug, Clone, Copy, PartialEq, Eq, Structural)]
pub enum MenuClick {
    /// "Show Demo Window", in debug builds.
    ShowDemoWindow,
    /// "About".
    About,
}

/// What a menu click does: the demo window is shown or hidden, the about
/// window is shown.
pub fn on_menu_click(state: &mut AppState, click: MenuClick)
    ensures
        *final(state) == (match click {
            MenuClick::ShowDemoWindow => AppState { show_demo_window: !old(state).show_demo_window, ..*old(state) },
            MenuClick::About => AppState { show_about_window: true, ..*old(state) },
        }),
{
    match click {
        MenuClick::ShowDemoWindow => state.show_demo_window = !state.show_demo_window,
        MenuClick::About => state.show_about_window = true,
    }
}

} // verus!
