use vstd::prelude::*;
use crate::input::{
    pass_through, send_combo_without_alt, spec_combo_without_alt, spec_wheel_delta, wheel_delta,
    HookOutcome, KeyEvent, held_after, key_set, law_combo_without_alt_restores_alt,
    law_combo_without_alt_key_sees_modifiers_only, VK_MENU, VK_CONTROL, VK_SHIFT, VK_T, VK_TAB, VK_W, WM_LBUTTONDOWN, WM_LBUTTONUP,
    WM_MOUSEWHEEL, WM_RBUTTONDOWN, WM_RBUTTONUP,
};
use crate::text::{ascii_lower, eq_ignore_ascii_case, str_eq_ignore_ascii_case};

verus! {

/// Whether a process executable's file name is that of the Thorium browser
/// (`thorium.exe`, ignoring ASCII case).
pub open spec fn spec_is_target_exe(name: Seq<char>) -> bool {
    eq_ignore_ascii_case(name, "thorium.exe"@)
}

/// Whether the foreground process, whose executable has file name `name`,
/// is the Thorium browser.
pub fn is_target_exe(name: &str) -> (target: bool)
    ensures
        target == spec_is_target_exe(name@),
{
    str_eq_ignore_ascii_case(name, "thorium.exe")
}

/// What the tab hook remembers between events: whether the next release of
/// the left or right button is to be swallowed, because the press that it
/// ends was turned into a tab command.
#[derive(Clone, Copy, Debug, PartialEq, Eq, Structural)]
pub struct TabsState {
    pub suppress_left_up: bool,
    pub suppress_right_up: bool,
}

impl TabsState {
    /// The state at start: no release is to be swallowed.
    pub fn new() -> (state: TabsState)
        ensures
            !state.suppress_left_up,
            !state.suppress_right_up,
    {
        TabsState { suppress_left_up: false, suppress_right_up: false }
    }
}

/// Whether `event` is one of the mouse messages that the tab hook handles.
pub open spec fn is_gesture_event(event: u32) -> bool {
    event == WM_MOUSEWHEEL || event == WM_LBUTTONDOWN || event == WM_LBUTTONUP || event
        == WM_RBUTTONDOWN || event == WM_RBUTTONUP
}

/// Whether the hook asks if a gesture is active (Alt held with Thorium in
/// the foreground) for this event.
pub open spec fn spec_inspects_gesture(state: TabsState, code: i32, event: u32) -> bool {
    &&& code >= 0
    &&& !(event == WM_LBUTTONUP && state.suppress_left_up)
    &&& !(event == WM_RBUTTONUP && state.suppress_right_up)
    &&& is_gesture_event(event)
}

/// Whether `mouse_proc` reads `gesture_active` for this event; when it does
/// not, the caller need not find out whether Alt is held and which process
/// is in the foreground.
pub fn inspects_gesture(state: &TabsState, code: i32, event: u32) -> (inspects: bool)
    ensures
        inspects == spec_inspects_gesture(*state, code, event),
{
    code >= 0 && !(event == WM_LBUTTONUP && state.suppress_left_up) && !(event == WM_RBUTTONUP
        && state.suppress_right_up) && (event == WM_MOUSEWHEEL || event == WM_LBUTTONDOWN || event
        == WM_LBUTTONUP || event == WM_RBUTTONDOWN || event == WM_RBUTTONUP)
}

/// Ctrl+Tab without Alt: next tab.
pub open spec fn next_tab_keys() -> Seq<KeyEvent> {
    spec_combo_without_alt(seq![VK_CONTROL], VK_TAB)
}

/// Ctrl+Shift+Tab without Alt: previous tab.
pub open spec fn previous_tab_keys() -> Seq<KeyEvent> {
    spec_combo_without_alt(seq![VK_CONTROL, VK_SHIFT], VK_TAB)
}

/// Ctrl+W without Alt: close the tab.
pub open spec fn close_tab_keys() -> Seq<KeyEvent> {
    spec_combo_without_alt(seq![VK_CONTROL], VK_W)
}

/// Ctrl+Shift+T without Alt: reopen the last closed tab.
pub open spec fn reopen_tab_keys() -> Seq<KeyEvent> {
    spec_combo_without_alt(seq![VK_CONTROL, VK_SHIFT], VK_T)
}

/// The tab hook's answer to one mouse event: the next state, whether the
/// event is consumed, and the key events sent.
///
/// A release that is to be swallowed is consumed (and no longer to be
/// swallowed). Other events are passed on unless they are wheel turns or
/// left/right presses or releases made while a gesture is active; those are
/// consumed, and: the wheel away from the user sends Ctrl+Tab, toward the
/// user Ctrl+Shift+Tab; a left press sends Ctrl+W and a right press
/// Ctrl+Shift+T, each marking its button's release to be swallowed. Every
/// combination is sent with Alt released around it.
pub open spec fn spec_tabs_hook(
    state: TabsState,
    code: i32,
    event: u32,
    mouse_data: u32,
    gesture_active: bool,
) -> (TabsState, bool, Seq<KeyEvent>) {
    if code < 0 {
        (state, false, Seq::empty())
    } else if event == WM_LBUTTONUP && state.suppress_left_up {
        (TabsState { suppress_left_up: false, ..state }, true, Seq::empty())
    } else if event == WM_RBUTTONUP && state.suppress_right_up {
        (TabsState { suppress_right_up: false, ..state }, true, Seq::empty())
    } else if !is_gesture_event(event) || !gesture_active {
        (state, false, Seq::empty())
    } else if event == WM_MOUSEWHEEL {
        let delta = spec_wheel_delta(mouse_data);
        (
            state,
            true,
            if delta > 0 {
                next_tab_keys()
            } else if delta < 0 {
                previous_tab_keys()
            } else {
                Seq::empty()
            },
        )
    } else if event == WM_LBUTTONDOWN {
        (TabsState { suppress_left_up: true, ..state }, true, close_tab_keys())
    } else if event == WM_RBUTTONDOWN {
        (TabsState { suppress_right_up: true, ..state }, true, reopen_tab_keys())
    } else {
        (state, true, Seq::empty())
    }
}

/// Decides what the tab hook does with a mouse event and updates its
/// state. `code` and `event` are the hook code and message, `mouse_data`
/// the event's `mouseData`; `gesture_active` is whether Alt is held while
/// Thorium is the foreground application, and is read only when
/// `inspects_gesture(state, code, event)`.
pub fn mouse_proc(
    state: &mut TabsState,
    code: i32,
    event: u32,
    mouse_data: u32,
    gesture_active: bool,
) -> (outcome: HookOutcome)
    ensures
        (*final(state), outcome.consume, outcome.keys@) == spec_tabs_hook(
            *old(state),
            code,
            event,
            mouse_data,
            gesture_active,
        ),
{
    if code < 0 {
        return pass_through();
    }
    if event == WM_LBUTTONUP && state.suppress_left_up {
        state.suppress_left_up = false;
        return HookOutcome { consume: true, keys: Vec::new() };
    }
    if event == WM_RBUTTONUP && state.suppress_right_up {
        state.suppress_right_up = false;
        return HookOutcome { consume: true, keys: Vec::new() };
    }
    if !inspects_gesture(state, code, event) || !gesture_active {
        return pass_through();
    }
    let ctrl: [u8; 1] = [VK_CONTROL];
    let ctrl_shift: [u8; 2] = [VK_CONTROL, VK_SHIFT];
    assert(ctrl@ =~= seq![VK_CONTROL]);
    assert(ctrl_shift@ =~= seq![VK_CONTROL, VK_SHIFT]);
    if event == WM_MOUSEWHEEL {
        let delta = wheel_delta(mouse_data);
        let keys = if delta > 0 {
            send_combo_without_alt(&ctrl, VK_TAB)
        } else if delta < 0 {
            send_combo_without_alt(&ctrl_shift, VK_TAB)
        } else {
            Vec::new()
        };
        HookOutcome { consume: true, keys }
    } else if event == WM_LBUTTONDOWN {
        state.suppress_left_up = true;
        HookOutcome { consume: true, keys: send_combo_without_alt(&ctrl, VK_W) }
    } else if event == WM_RBUTTONDOWN {
        state.suppress_right_up = true;
        HookOutcome { consume: true, keys: send_combo_without_alt(&ctrl_shift, VK_T) }
    } else {
        HookOutcome { consume: true, keys: Vec::new() }
    }
}

/// Law: the gestures of the tab hook. While a gesture is active, the wheel
/// away from the user goes to the next tab, toward the user to the previous
/// tab, a left press closes the tab and a right press reopens the last
/// closed one, each consumed; with no gesture active and no release to
/// swallow, every event is passed on and no key is sent.
pub proof fn law_tab_gestures(state: TabsState, code: i32, mouse_data: u32)
    requires
        code >= 0,
    ensures
        spec_wheel_delta(mouse_data) > 0 ==> spec_tabs_hook(
            state,
            code,
            WM_MOUSEWHEEL,
            mouse_data,
            true,
        ) == (state, true, next_tab_keys()),
        spec_wheel_delta(mouse_data) < 0 ==> spec_tabs_hook(
            state,
            code,
            WM_MOUSEWHEEL,
            mouse_data,
            true,
        ) == (state, true, previous_tab_keys()),
        spec_tabs_hook(state, code, WM_LBUTTONDOWN, mouse_data, true) == (
            TabsState { suppress_left_up: true, ..state },
            true,
            close_tab_keys(),
        ),
        spec_tabs_hook(state, code, WM_RBUTTONDOWN, mouse_data, true) == (
            TabsState { suppress_right_up: true, ..state },
            true,
            reopen_tab_keys(),
        ),
        forall|event: u32|
            !state.suppress_left_up && !state.suppress_right_up ==> #[trigger] spec_tabs_hook(
                state,
                code,
                event,
                mouse_data,
                false,
            ) == (state, false, Seq::<KeyEvent>::empty()),
{
}

/// Law: after a left or right press has been turned into a tab command, the
/// release of that button is swallowed, whatever the gesture state is by
/// then, and the next release of it is no longer swallowed on that account;
/// the other button's pending release is left as it was.
pub proof fn law_gesture_press_swallows_its_release(
    state: TabsState,
    code: i32,
    press_data: u32,
    release_data: u32,
    active_at_release: bool,
)
    requires
        code >= 0,
    ensures
        ({
            let (after_press, _, _) = spec_tabs_hook(state, code, WM_RBUTTONDOWN, press_data, true);
            let (after_release, consumed, keys) = spec_tabs_hook(
                after_press,
                code,
                WM_RBUTTONUP,
                release_data,
                active_at_release,
            );
            &&& consumed
            &&& keys == Seq::<KeyEvent>::empty()
            &&& !after_release.suppress_right_up
            &&& after_release.suppress_left_up == state.suppress_left_up
        }),
        ({
            let (after_press, _, _) = spec_tabs_hook(state, code, WM_LBUTTONDOWN, press_data, true);
            let (after_release, consumed, keys) = spec_tabs_hook(
                after_press,
                code,
                WM_LBUTTONUP,
                release_data,
                active_at_release,
            );
            &&& consumed
            &&& keys == Seq::<KeyEvent>::empty()
            &&& !after_release.suppress_left_up
            &&& after_release.suppress_right_up == state.suppress_right_up
        }),
{
}

/// Law: every tab command leaves Alt held (as the user still holds it) and
/// Ctrl, Shift and the command key released, whatever was held before; and
/// at the moment its key goes down, Ctrl (and Shift where the command has
/// it) are held and Alt is not.
pub proof fn law_tab_commands_restore_alt(held: Set<u8>)
    ensures
        held_after(held, next_tab_keys()) == (held - key_set(seq![VK_CONTROL, VK_TAB])).insert(
            VK_MENU,
        ),
        held_after(held, previous_tab_keys()) == (held - key_set(
            seq![VK_CONTROL, VK_SHIFT, VK_TAB],
        )).insert(VK_MENU),
        held_after(held, close_tab_keys()) == (held - key_set(seq![VK_CONTROL, VK_W])).insert(
            VK_MENU,
        ),
        held_after(held, reopen_tab_keys()) == (held - key_set(
            seq![VK_CONTROL, VK_SHIFT, VK_T],
        )).insert(VK_MENU),
        ({
            let at = held_after(held, previous_tab_keys().take(4));
            at.contains(VK_CONTROL) && at.contains(VK_SHIFT) && at.contains(VK_TAB) && !at.contains(
                VK_MENU,
            )
        }),
        ({
            let at = held_after(held, next_tab_keys().take(3));
            at.contains(VK_CONTROL) && at.contains(VK_TAB) && !at.contains(VK_MENU)
        }),
        ({
            let at = held_after(held, close_tab_keys().take(3));
            at.contains(VK_CONTROL) && at.contains(VK_W) && !at.contains(VK_MENU)
        }),
        ({
            let at = held_after(held, reopen_tab_keys().take(4));
            at.contains(VK_CONTROL) && at.contains(VK_SHIFT) && at.contains(VK_T) && !at.contains(
                VK_MENU,
            )
        }),
{
    let ctrl = seq![VK_CONTROL];
    let ctrl_shift = seq![VK_CONTROL, VK_SHIFT];
    assert(ctrl.push(VK_TAB) =~= seq![VK_CONTROL, VK_TAB]);
    assert(ctrl_shift.push(VK_TAB) =~= seq![VK_CONTROL, VK_SHIFT, VK_TAB]);
    assert(ctrl.push(VK_W) =~= seq![VK_CONTROL, VK_W]);
    assert(ctrl_shift.push(VK_T) =~= seq![VK_CONTROL, VK_SHIFT, VK_T]);
    law_combo_without_alt_restores_alt(held, ctrl, VK_TAB);
    law_combo_without_alt_restores_alt(held, ctrl_shift, VK_TAB);
    law_combo_without_alt_restores_alt(held, ctrl, VK_W);
    law_combo_without_alt_restores_alt(held, ctrl_shift, VK_T);
    assert(!ctrl.contains(VK_MENU)) by {
        if ctrl.contains(VK_MENU) {
            let i = choose|i: int| 0 <= i < ctrl.len() && ctrl[i] == VK_MENU;
        }
    }
    assert(!ctrl_shift.contains(VK_MENU)) by {
        if ctrl_shift.contains(VK_MENU) {
            let i = choose|i: int| 0 <= i < ctrl_shift.len() && ctrl_shift[i] == VK_MENU;
        }
    }
    law_combo_without_alt_key_sees_modifiers_only(held, ctrl, VK_TAB);
    law_combo_without_alt_key_sees_modifiers_only(held, ctrl_shift, VK_TAB);
    law_combo_without_alt_key_sees_modifiers_only(held, ctrl, VK_W);
    law_combo_without_alt_key_sees_modifiers_only(held, ctrl_shift, VK_T);
    assert(ctrl[0] == VK_CONTROL);
    assert(ctrl_shift[0] == VK_CONTROL && ctrl_shift[1] == VK_SHIFT);
}

/// Law: only wheel turns (`0x020A`) and left/right presses and releases
/// (`0x0201`, `0x0202`, `0x0204`, `0x0205`) are ever consumed; every other
/// message (a mouse move, a middle click) is passed on with no key sent and
/// the state unchanged, even while a gesture is active; and so is every
/// event with a negative hook code.
pub proof fn law_tabs_other_events_pass(
    state: TabsState,
    code: i32,
    event: u32,
    mouse_data: u32,
    gesture_active: bool,
)
    ensures
        event != 0x020Au32 && event != 0x0201u32 && event != 0x0202u32 && event != 0x0204u32
            && event != 0x0205u32 ==> spec_tabs_hook(
            state,
            code,
            event,
            mouse_data,
            gesture_active,
        ) == (state, false, Seq::<KeyEvent>::empty()),
        code < 0 ==> spec_tabs_hook(state, code, event, mouse_data, gesture_active) == (
            state,
            false,
            Seq::<KeyEvent>::empty(),
        ),
        spec_inspects_gesture(state, code, event) <==> (code >= 0 && (event == 0x020Au32 || event
            == 0x0201u32 || (event == 0x0202u32 && !state.suppress_left_up) || event == 0x0204u32
            || (event == 0x0205u32 && !state.suppress_right_up))),
        !spec_inspects_gesture(state, code, event) ==> spec_tabs_hook(
            state,
            code,
            event,
            mouse_data,
            true,
        ) == spec_tabs_hook(state, code, event, mouse_data, false),
{
}

/// The event that presses the key with Win32 code `key`.
pub open spec fn down(key: u8) -> KeyEvent {
    KeyEvent { key, release: false }
}

/// The event that releases the key with Win32 code `key`.
pub open spec fn up(key: u8) -> KeyEvent {
    KeyEvent { key, release: true }
}

/// Law: the keys of each gesture, by their Win32 codes (Alt `0x12`, Ctrl
/// `0x11`, Shift `0x10`, Tab `0x09`, W `0x57`, T `0x54`). While a gesture is
/// active: the wheel away from the user releases Alt, sends Ctrl+Tab and
/// presses Alt again; toward the user, the same with Ctrl+Shift+Tab; a left
/// press sends Ctrl+W and marks the left release to be swallowed; a right
/// press sends Ctrl+Shift+T and marks the right release. A left or right
/// release not marked is consumed with no key.
pub proof fn law_tab_gesture_keys(state: TabsState, code: i32, mouse_data: u32)
    requires
        code >= 0,
    ensures
        spec_wheel_delta(mouse_data) > 0 ==> spec_tabs_hook(
            state,
            code,
            0x020Au32,
            mouse_data,
            true,
        ) == (state, true, seq![up(0x12), down(0x11), down(0x09), up(0x09), up(0x11), down(0x12)]),
        spec_wheel_delta(mouse_data) < 0 ==> spec_tabs_hook(
            state,
            code,
            0x020Au32,
            mouse_data,
            true,
        ) == (
            state,
            true,
            seq![
                up(0x12),
                down(0x11),
                down(0x10),
                down(0x09),
                up(0x09),
                up(0x10),
                up(0x11),
                down(0x12),
            ],
        ),
        spec_wheel_delta(mouse_data) == 0 ==> spec_tabs_hook(
            state,
            code,
            0x020Au32,
            mouse_data,
            true,
        ) == (state, true, Seq::<KeyEvent>::empty()),
        spec_tabs_hook(state, code, 0x0201u32, mouse_data, true) == (
            TabsState { suppress_left_up: true, suppress_right_up: state.suppress_right_up },
            true,
            seq![up(0x12), down(0x11), down(0x57), up(0x57), up(0x11), down(0x12)],
        ),
        spec_tabs_hook(state, code, 0x0204u32, mouse_data, true) == (
            TabsState { suppress_left_up: state.suppress_left_up, suppress_right_up: true },
            true,
            seq![
                up(0x12),
                down(0x11),
                down(0x10),
                down(0x54),
                up(0x54),
                up(0x10),
                up(0x11),
                down(0x12),
            ],
        ),
        !state.suppress_left_up ==> spec_tabs_hook(state, code, 0x0202u32, mouse_data, true) == (
            state,
            true,
            Seq::<KeyEvent>::empty(),
        ),
        !state.suppress_right_up ==> spec_tabs_hook(state, code, 0x0205u32, mouse_data, true) == (
            state,
            true,
            Seq::<KeyEvent>::empty(),
        ),
        state.suppress_left_up ==> spec_tabs_hook(state, code, 0x0202u32, mouse_data, false) == (
            TabsState { suppress_left_up: false, suppress_right_up: state.suppress_right_up },
            true,
            Seq::<KeyEvent>::empty(),
        ),
        state.suppress_right_up ==> spec_tabs_hook(state, code, 0x0205u32, mouse_data, false) == (
            TabsState { suppress_left_up: state.suppress_left_up, suppress_right_up: false },
            true,
            Seq::<KeyEvent>::empty(),
        ),
{
    assert(next_tab_keys() =~= seq![
        up(0x12),
        down(0x11),
        down(0x09),
        up(0x09),
        up(0x11),
        down(0x12),
    ]);
    assert(previous_tab_keys() =~= seq![
        up(0x12),
        down(0x11),
        down(0x10),
        down(0x09),
        up(0x09),
        up(0x10),
        up(0x11),
        down(0x12),
    ]);
    assert(close_tab_keys() =~= seq![
        up(0x12),
        down(0x11),
        down(0x57),
        up(0x57),
        up(0x11),
        down(0x12),
    ]);
    assert(reopen_tab_keys() =~= seq![
        up(0x12),
        down(0x11),
        down(0x10),
        down(0x54),
        up(0x54),
        up(0x10),
        up(0x11),
        down(0x12),
    ]);
}

/// Law: the target executable, spelled out: a file name is Thorium's
/// exactly when, with its ASCII letters lowered, it reads `thorium.exe`.
pub proof fn law_target_exe_name(name: Seq<char>)
    ensures
        spec_is_target_exe(name) <==> name.map_values(|c: char| ascii_lower(c)) == seq![
            't',
            'h',
            'o',
            'r',
            'i',
            'u',
            'm',
            '.',
            'e',
            'x',
            'e',
        ],
{
    reveal_strlit("thorium.exe");
    let lit = seq!['t', 'h', 'o', 'r', 'i', 'u', 'm', '.', 'e', 'x', 'e'];
    assert("thorium.exe"@ =~= lit);
    let lowered = name.map_values(|c: char| ascii_lower(c));
    if spec_is_target_exe(name) {
        assert forall|i: int| 0 <= i < lit.len() implies lowered[i] == lit[i] by {
            assert(ascii_lower(name[i]) == ascii_lower(lit[i]));
        }
        assert(lowered =~= lit);
    }
    if lowered == lit {
        assert forall|i: int| 0 <= i < name.len() implies ascii_lower(#[trigger] name[i])
            == ascii_lower(lit[i]) by {
            assert(lowered[i] == ascii_lower(name[i]));
        }
    }
}

} // verus!
