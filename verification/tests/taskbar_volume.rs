use rpack_tools::input::{
    KeyEvent, VK_VOLUME_DOWN, VK_VOLUME_MUTE, VK_VOLUME_UP, WM_LBUTTONDOWN, WM_MBUTTONDOWN,
    WM_MOUSEWHEEL,
};
use rpack_tools::taskbar_volume::{
    class_name, inspects_pointer, is_over_taskbar, is_over_taskbar_background, is_taskbar_class,
    mouse_proc,
};

fn units(s: &str) -> Vec<u16> {
    s.encode_utf16().collect()
}

fn tap(key: u8) -> Vec<KeyEvent> {
    vec![KeyEvent { key, release: false }, KeyEvent { key, release: true }]
}

const WHEEL_UP: u32 = 0x0078_0000;
const WHEEL_DOWN: u32 = 0xFF88_0000;

#[test]
fn class_name_reads_buffer_prefix() {
    let mut buffer = [0u16; 256];
    let name = units("Shell_TrayWnd");
    buffer[..name.len()].copy_from_slice(&name);
    assert_eq!(class_name(&buffer, name.len() as i32), Some(name));
    assert_eq!(class_name(&buffer, 0), None);
    assert_eq!(class_name(&buffer, -1), None);
}

#[test]
fn is_taskbar_class_knows_both_taskbars() {
    assert!(is_taskbar_class(&units("Shell_TrayWnd")));
    assert!(is_taskbar_class(&units("Shell_SecondaryTrayWnd")));
    assert!(!is_taskbar_class(&units("shell_traywnd")));
    assert!(!is_taskbar_class(&units("Shell_TrayWnd ")));
    assert!(!is_taskbar_class(&units("MSTaskListWClass")));
    assert!(!is_taskbar_class(&[]));
}

#[test]
fn is_over_taskbar_searches_ancestors() {
    let on_button = vec![
        Some(units("MSTaskListWClass")),
        None,
        Some(units("ReBarWindow32")),
        Some(units("Shell_TrayWnd")),
    ];
    assert!(is_over_taskbar(&on_button));
    assert!(!is_over_taskbar_background(&on_button));
    let on_background = vec![Some(units("Shell_SecondaryTrayWnd"))];
    assert!(is_over_taskbar(&on_background));
    assert!(is_over_taskbar_background(&on_background));
    let elsewhere = vec![Some(units("Notepad")), Some(units("Progman"))];
    assert!(!is_over_taskbar(&elsewhere));
    assert!(!is_over_taskbar_background(&elsewhere));
    assert!(!is_over_taskbar(&vec![]));
    assert!(!is_over_taskbar_background(&vec![]));
}

#[test]
fn inspects_only_wheel_and_middle_press() {
    assert!(inspects_pointer(0, WM_MOUSEWHEEL));
    assert!(inspects_pointer(0, WM_MBUTTONDOWN));
    assert!(!inspects_pointer(0, WM_LBUTTONDOWN));
    assert!(!inspects_pointer(-1, WM_MOUSEWHEEL));
}

#[test]
fn wheel_over_taskbar_changes_volume() {
    let up = mouse_proc(0, WM_MOUSEWHEEL, WHEEL_UP, true, false);
    assert!(up.consume);
    assert_eq!(up.keys, tap(VK_VOLUME_UP));
    let down = mouse_proc(0, WM_MOUSEWHEEL, WHEEL_DOWN, true, true);
    assert!(down.consume);
    assert_eq!(down.keys, tap(VK_VOLUME_DOWN));
    let still = mouse_proc(0, WM_MOUSEWHEEL, 0, true, false);
    assert!(still.consume);
    assert!(still.keys.is_empty());
}

#[test]
fn middle_click_on_bare_taskbar_mutes() {
    let mute = mouse_proc(0, WM_MBUTTONDOWN, 0, true, true);
    assert!(mute.consume);
    assert_eq!(mute.keys, tap(VK_VOLUME_MUTE));
}

#[test]
fn middle_click_on_taskbar_button_passes_through() {
    let out = mouse_proc(0, WM_MBUTTONDOWN, 0, true, false);
    assert!(!out.consume);
    assert!(out.keys.is_empty());
}

#[test]
fn events_away_from_taskbar_pass_through() {
    for (code, event, data, over) in [
        (0, WM_MOUSEWHEEL, WHEEL_UP, false),
        (0, WM_MBUTTONDOWN, 0, false),
        (-1, WM_MOUSEWHEEL, WHEEL_UP, true),
        (0, WM_LBUTTONDOWN, 0, true),
    ] {
        let out = mouse_proc(code, event, data, over, over);
        assert!(!out.consume);
        assert!(out.keys.is_empty());
    }
}
