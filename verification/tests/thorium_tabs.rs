use rpack_tools::input::{
    send_combo_without_alt, VK_CONTROL, VK_SHIFT, VK_T, VK_TAB, VK_W, WM_LBUTTONDOWN,
    WM_LBUTTONUP, WM_MBUTTONDOWN, WM_MOUSEWHEEL, WM_RBUTTONDOWN, WM_RBUTTONUP,
};
use rpack_tools::thorium_tabs::{inspects_gesture, is_target_exe, mouse_proc, TabsState};

const WHEEL_UP: u32 = 0x0078_0000;
const WHEEL_DOWN: u32 = 0xFF88_0000;

#[test]
fn target_exe_ignores_ascii_case() {
    assert!(is_target_exe("thorium.exe"));
    assert!(is_target_exe("Thorium.EXE"));
    assert!(!is_target_exe("thorium.exe.bak"));
    assert!(!is_target_exe("chrome.exe"));
    assert!(!is_target_exe(""));
    assert!(!is_target_exe("thoríum.exe"));
}

#[test]
fn alt_wheel_switches_tabs() {
    let mut state = TabsState::new();
    let next = mouse_proc(&mut state, 0, WM_MOUSEWHEEL, WHEEL_UP, true);
    assert!(next.consume);
    assert_eq!(next.keys, send_combo_without_alt(&[VK_CONTROL], VK_TAB));
    let previous = mouse_proc(&mut state, 0, WM_MOUSEWHEEL, WHEEL_DOWN, true);
    assert!(previous.consume);
    assert_eq!(previous.keys, send_combo_without_alt(&[VK_CONTROL, VK_SHIFT], VK_TAB));
    assert_eq!(state, TabsState::new());
}

#[test]
fn alt_left_click_closes_tab_and_swallows_release() {
    let mut state = TabsState::new();
    let close = mouse_proc(&mut state, 0, WM_LBUTTONDOWN, 0, true);
    assert!(close.consume);
    assert_eq!(close.keys, send_combo_without_alt(&[VK_CONTROL], VK_W));
    assert!(state.suppress_left_up);
    assert!(!inspects_gesture(&state, 0, WM_LBUTTONUP));
    let release = mouse_proc(&mut state, 0, WM_LBUTTONUP, 0, false);
    assert!(release.consume);
    assert!(release.keys.is_empty());
    assert_eq!(state, TabsState::new());
    let later = mouse_proc(&mut state, 0, WM_LBUTTONUP, 0, false);
    assert!(!later.consume);
}

#[test]
fn alt_right_click_reopens_tab_and_swallows_release() {
    let mut state = TabsState::new();
    let reopen = mouse_proc(&mut state, 0, WM_RBUTTONDOWN, 0, true);
    assert!(reopen.consume);
    assert_eq!(reopen.keys, send_combo_without_alt(&[VK_CONTROL, VK_SHIFT], VK_T));
    assert!(state.suppress_right_up);
    let release = mouse_proc(&mut state, 0, WM_RBUTTONUP, 0, false);
    assert!(release.consume);
    assert!(release.keys.is_empty());
    assert!(!state.suppress_right_up);
}

#[test]
fn without_gesture_events_pass_through() {
    let mut state = TabsState::new();
    for event in [WM_MOUSEWHEEL, WM_LBUTTONDOWN, WM_LBUTTONUP, WM_RBUTTONDOWN, WM_RBUTTONUP] {
        let out = mouse_proc(&mut state, 0, event, WHEEL_UP, false);
        assert!(!out.consume);
        assert!(out.keys.is_empty());
    }
    let middle = mouse_proc(&mut state, 0, WM_MBUTTONDOWN, 0, true);
    assert!(!middle.consume);
    assert!(!inspects_gesture(&state, 0, WM_MBUTTONDOWN));
    assert_eq!(state, TabsState::new());
}

#[test]
fn negative_code_passes_through_untouched() {
    let mut state = TabsState { suppress_left_up: true, suppress_right_up: true };
    let out = mouse_proc(&mut state, -1, WM_LBUTTONUP, 0, true);
    assert!(!out.consume);
    assert!(state.suppress_left_up && state.suppress_right_up);
    assert!(!inspects_gesture(&state, -1, WM_MOUSEWHEEL));
}

#[test]
fn gesture_release_while_inactive_up_is_consumed_when_flagged() {
    let mut state = TabsState { suppress_left_up: false, suppress_right_up: true };
    let left = mouse_proc(&mut state, 0, WM_LBUTTONUP, 0, true);
    assert!(left.consume);
    assert!(left.keys.is_empty());
    assert!(state.suppress_right_up);
}
