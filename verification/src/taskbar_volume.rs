use vstd::prelude::*;
use vstd::string::StrSliceExecFns;
use crate::input::{
    pass_through, spec_tap, spec_wheel_delta, tap_key, wheel_delta, HookOutcome, KeyEvent,
    VK_VOLUME_DOWN, VK_VOLUME_MUTE, VK_VOLUME_UP, WM_MBUTTONDOWN, WM_MOUSEWHEEL,
};

verus! {

/// The UTF-16 units of a text made of ASCII characters.
pub open spec fn ascii_units(text: Seq<char>) -> Seq<u16> {
    text.map_values(|c: char| c as u16)
}

/// Whether a window class name (in UTF-16 units) is that of the primary
/// (`Shell_TrayWnd`) or a secondary (`Shell_SecondaryTrayWnd`) taskbar.
pub open spec fn spec_is_taskbar_class(name: Seq<u16>) -> bool {
    name == ascii_units("Shell_TrayWnd"@) || name == ascii_units("Shell_SecondaryTrayWnd"@)
}

fn units_equal(units: &[u16], lit: &str) -> (eq: bool)
    ensures
        eq == (units@ == ascii_units(lit@)),
{
    let n = lit.unicode_len();
    if units.len() != n {
        return false;
    }
    let mut i: usize = 0;
    while i < n
        invariant
            n == lit@.len(),
            units@.len() == n,
            i <= n,
            forall|j: int| 0 <= j < i ==> #[trigger] units@[j] == lit@[j] as u16,
        decreases n - i,
    {
        if units[i] != lit.get_char(i) as u16 {
            proof {
                assert(ascii_units(lit@)[i as int] != units@[i as int]);
            }
            return false;
        }
        i += 1;
    }
    assert(units@ =~= ascii_units(lit@));
    true
}

/// Whether `name` is the class name of a taskbar window.
pub fn is_taskbar_class(name: &[u16]) -> (taskbar: bool)
    ensures
        taskbar == spec_is_taskbar_class(name@),
{
    units_equal(name, "Shell_TrayWnd") || units_equal(name, "Shell_SecondaryTrayWnd")
}

/// The class name that `GetClassNameW` wrote into `buffer`, given the
/// length it returned: nothing when that length is not positive.
pub fn class_name(buffer: &[u16], len: i32) -> (name: Option<Vec<u16>>)
    requires
        len <= buffer@.len(),
    ensures
        len <= 0 ==> name is None,
        len > 0 ==> (name matches Some(v) && v@ == buffer@.take(len as int)),
{
    if len <= 0 {
        return None;
    }
    let n = len as usize;
    let mut v: Vec<u16> = Vec::new();
    let mut i: usize = 0;
    while i < n
        invariant
            n == len,
            n <= buffer@.len(),
            i <= n,
            v@ == buffer@.take(i as int),
        decreases n - i,
    {
        v.push(buffer[i]);
        i += 1;
        assert(v@ =~= buffer@.take(i as int));
    }
    Some(v)
}

/// Whether entry `i` of a chain of class names names a taskbar.
pub open spec fn names_taskbar(chain: Seq<Option<Vec<u16>>>, i: int) -> bool {
    chain[i] matches Some(name) && spec_is_taskbar_class(name@)
}

/// Whether the pointer is over the taskbar, given the class names of the
/// window under the pointer and of each of its ancestors, innermost first
/// (`None` where the class name could not be read): some window of the
/// chain is a taskbar.
pub fn is_over_taskbar(chain: &Vec<Option<Vec<u16>>>) -> (over: bool)
    ensures
        over == exists|i: int| 0 <= i < chain@.len() && #[trigger] names_taskbar(chain@, i),
{
    let n = chain.len();
    let mut i: usize = 0;
    while i < n
        invariant
            n == chain@.len(),
            i <= n,
            forall|j: int| 0 <= j < i ==> !#[trigger] names_taskbar(chain@, j),
        decreases n - i,
    {
        match &chain[i] {
            Some(name) => {
                if is_taskbar_class(name.as_slice()) {
                    assert(names_taskbar(chain@, i as int));
                    return true;
                }
            },
            None => {},
        }
        i += 1;
    }
    false
}

/// Whether the pointer is over the bare taskbar rather than over one of
/// its buttons: the window right under the pointer is itself a taskbar.
pub fn is_over_taskbar_background(chain: &Vec<Option<Vec<u16>>>) -> (over: bool)
    ensures
        over == (chain@.len() > 0 && names_taskbar(chain@, 0)),
{
    if chain.len() == 0 {
        return false;
    }
    match &chain[0] {
        Some(name) => is_taskbar_class(name.as_slice()),
        None => false,
    }
}

/// Whether the hook looks at where the pointer is for this event: only
/// for wheel turns and middle-button presses that it may act on
/// (`code` below zero means the event must be passed on untouched).
pub open spec fn spec_inspects_pointer(code: i32, event: u32) -> bool {
    code >= 0 && (event == WM_MOUSEWHEEL || event == WM_MBUTTONDOWN)
}

/// Whether `mouse_proc` reads `over_taskbar` and `over_background` for
/// this event; when it does not, the caller need not compute them.
pub fn inspects_pointer(code: i32, event: u32) -> (inspects: bool)
    ensures
        inspects == spec_inspects_pointer(code, event),
{
    code >= 0 && (event == WM_MOUSEWHEEL || event == WM_MBUTTONDOWN)
}

/// The volume hook's answer to one mouse event: whether it is consumed, and
/// the key taps sent. A wheel turn over the taskbar taps volume up (wheel
/// away from the user) or volume down (toward the user) and is consumed; a
/// middle press over the bare taskbar taps mute and is consumed; every
/// other event is passed on.
pub open spec fn spec_volume_hook(
    code: i32,
    event: u32,
    mouse_data: u32,
    over_taskbar: bool,
    over_background: bool,
) -> (bool, Seq<KeyEvent>) {
    if !spec_inspects_pointer(code, event) || !over_taskbar {
        (false, Seq::empty())
    } else if event == WM_MOUSEWHEEL {
        let delta = spec_wheel_delta(mouse_data);
        (
            true,
            if delta > 0 {
                spec_tap(VK_VOLUME_UP)
            } else if delta < 0 {
                spec_tap(VK_VOLUME_DOWN)
            } else {
                Seq::empty()
            },
        )
    } else if !over_background {
        (false, Seq::empty())
    } else {
        (true, spec_tap(VK_VOLUME_MUTE))
    }
}

/// Decides what the volume hook does with a mouse event. `code` and
/// `event` are the hook code and message, `mouse_data` the event's
/// `mouseData`; `over_taskbar` and `over_background` say where the pointer
/// is (see `is_over_taskbar` and `is_over_taskbar_background`) and are read
/// only when `inspects_pointer(code, event)`.
pub fn mouse_proc(
    code: i32,
    event: u32,
    mouse_data: u32,
    over_taskbar: bool,
    over_background: bool,
) -> (outcome: HookOutcome)
    ensures
        (outcome.consume, outcome.keys@) == spec_volume_hook(
            code,
            event,
            mouse_data,
            over_taskbar,
            over_background,
        ),
{
    if !inspects_pointer(code, event) || !over_taskbar {
        return pass_through();
    }
    if event == WM_MOUSEWHEEL {
        let delta = wheel_delta(mouse_data);
        let keys = if delta > 0 {
            tap_key(VK_VOLUME_UP)
        } else if delta < 0 {
            tap_key(VK_VOLUME_DOWN)
        } else {
            Vec::new()
        };
        HookOutcome { consume: true, keys }
    } else if !over_background {
        pass_through()
    } else {
        HookOutcome { consume: true, keys: tap_key(VK_VOLUME_MUTE) }
    }
}

/// Law: what the volume hook does with each gesture. A wheel turn away from
/// the user over the taskbar raises the volume, toward the user lowers it; a
/// middle click on the bare taskbar toggles mute; a middle click on a
/// taskbar button is passed on, so that Windows still opens a new window of
/// the application; anything away from the taskbar is passed on with no key
/// sent, and so is any event the hook is told not to touch.
pub proof fn law_volume_gestures(
    code: i32,
    mouse_data: u32,
    over_taskbar: bool,
    over_background: bool,
)
    ensures
        code >= 0 && over_taskbar && spec_wheel_delta(mouse_data) > 0 ==> spec_volume_hook(
            code,
            WM_MOUSEWHEEL,
            mouse_data,
            over_taskbar,
            over_background,
        ) == (true, spec_tap(VK_VOLUME_UP)),
        code >= 0 && over_taskbar && spec_wheel_delta(mouse_data) < 0 ==> spec_volume_hook(
            code,
            WM_MOUSEWHEEL,
            mouse_data,
            over_taskbar,
            over_background,
        ) == (true, spec_tap(VK_VOLUME_DOWN)),
        code >= 0 && over_taskbar && over_background ==> spec_volume_hook(
            code,
            WM_MBUTTONDOWN,
            mouse_data,
            over_taskbar,
            over_background,
        ) == (true, spec_tap(VK_VOLUME_MUTE)),
        !over_background ==> spec_volume_hook(
            code,
            WM_MBUTTONDOWN,
            mouse_data,
            over_taskbar,
            over_background,
        ) == (false, Seq::<KeyEvent>::empty()),
        forall|event: u32|
            !over_taskbar ==> #[trigger] spec_volume_hook(
                code,
                event,
                mouse_data,
                over_taskbar,
                over_background,
            ) == (false, Seq::<KeyEvent>::empty()),
        forall|event: u32|
            code < 0 ==> #[trigger] spec_volume_hook(
                code,
                event,
                mouse_data,
                over_taskbar,
                over_background,
            ) == (false, Seq::<KeyEvent>::empty()),
{
}

/// Law: for an event the hook does not inspect, the answer does not depend
/// on where the pointer is, so the caller may leave the pointer unread.
pub proof fn law_volume_uninspected_ignores_pointer(
    code: i32,
    event: u32,
    mouse_data: u32,
    a: (bool, bool),
    b: (bool, bool),
)
    requires
        !spec_inspects_pointer(code, event),
    ensures
        spec_volume_hook(code, event, mouse_data, a.0, a.1) == spec_volume_hook(
            code,
            event,
            mouse_data,
            b.0,
            b.1,
        ),
        spec_volume_hook(code, event, mouse_data, a.0, a.1) == (false, Seq::<KeyEvent>::empty()),
{
}

/// Law: only wheel turns (`0x020A`) and middle-button presses (`0x0207`)
/// are ever acted on; every other message (a middle-button release among
/// them) is passed on with no key sent, wherever the pointer is; and the
/// pointer is only looked at for those two messages with a nonnegative
/// hook code.
pub proof fn law_volume_acts_on_wheel_and_middle_press_only(
    code: i32,
    event: u32,
    mouse_data: u32,
    over_taskbar: bool,
    over_background: bool,
)
    ensures
        event != 0x020Au32 && event != 0x0207u32 ==> spec_volume_hook(
            code,
            event,
            mouse_data,
            over_taskbar,
            over_background,
        ) == (false, Seq::<KeyEvent>::empty()),
        spec_inspects_pointer(code, event) <==> (code >= 0 && (event == 0x020Au32 || event
            == 0x0207u32)),
{
}

/// Law: the keys the volume hook sends, by their Win32 codes: a wheel turn
/// away from the user over the taskbar taps volume up (`0xAF`), toward the
/// user volume down (`0xAE`), a middle press on the bare taskbar taps mute
/// (`0xAD`); each tap is a press followed by a release of that key.
pub proof fn law_volume_keys(code: i32, mouse_data: u32, over_background: bool)
    requires
        code >= 0,
    ensures
        spec_wheel_delta(mouse_data) > 0 ==> spec_volume_hook(
            code,
            0x020Au32,
            mouse_data,
            true,
            over_background,
        ) == (
            true,
            seq![KeyEvent { key: 0xAFu8, release: false }, KeyEvent { key: 0xAFu8, release: true }],
        ),
        spec_wheel_delta(mouse_data) < 0 ==> spec_volume_hook(
            code,
            0x020Au32,
            mouse_data,
            true,
            over_background,
        ) == (
            true,
            seq![KeyEvent { key: 0xAEu8, release: false }, KeyEvent { key: 0xAEu8, release: true }],
        ),
        spec_wheel_delta(mouse_data) == 0 ==> spec_volume_hook(
            code,
            0x020Au32,
            mouse_data,
            true,
            over_background,
        ) == (true, Seq::<KeyEvent>::empty()),
        spec_volume_hook(code, 0x0207u32, mouse_data, true, true) == (
            true,
            seq![KeyEvent { key: 0xADu8, release: false }, KeyEvent { key: 0xADu8, release: true }],
        ),
        spec_volume_hook(code, 0x0207u32, mouse_data, true, false) == (
            false,
            Seq::<KeyEvent>::empty(),
        ),
{
}

/// Law: the taskbar class names, spelled out: exactly the UTF-16 units of
/// `Shell_TrayWnd` and of `Shell_SecondaryTrayWnd` are taskbar classes.
pub proof fn law_taskbar_class_names(name: Seq<u16>)
    ensures
        spec_is_taskbar_class(name) <==> (name == seq![
            0x53u16, 0x68, 0x65, 0x6C, 0x6C, 0x5F, 0x54, 0x72, 0x61, 0x79, 0x57, 0x6E, 0x64,
        ] || name == seq![
            0x53u16, 0x68, 0x65, 0x6C, 0x6C, 0x5F, 0x53, 0x65, 0x63, 0x6F, 0x6E, 0x64, 0x61,
            0x72, 0x79, 0x54, 0x72, 0x61, 0x79, 0x57, 0x6E, 0x64,
        ]),
{
    reveal_strlit("Shell_TrayWnd");
    reveal_strlit("Shell_SecondaryTrayWnd");
    assert(ascii_units("Shell_TrayWnd"@) =~= seq![
        0x53u16, 0x68, 0x65, 0x6C, 0x6C, 0x5F, 0x54, 0x72, 0x61, 0x79, 0x57, 0x6E, 0x64,
    ]);
    assert(ascii_units("Shell_SecondaryTrayWnd"@) =~= seq![
        0x53u16, 0x68, 0x65, 0x6C, 0x6C, 0x5F, 0x53, 0x65, 0x63, 0x6F, 0x6E, 0x64, 0x61, 0x72,
        0x79, 0x54, 0x72, 0x61, 0x79, 0x57, 0x6E, 0x64,
    ]);
}

/// Law: a chain names the taskbar at a position exactly when a class name
/// was read there and it is a taskbar class; and a pointer over the bare
/// taskbar is over the taskbar.
pub proof fn law_background_is_over_taskbar(chain: Seq<Option<Vec<u16>>>)
    ensures
        forall|i: int|
            0 <= i < chain.len() ==> (#[trigger] names_taskbar(chain, i) <==> (chain[i] is Some
                && spec_is_taskbar_class(chain[i]->0@))),
        (chain.len() > 0 && names_taskbar(chain, 0)) ==> exists|i: int|
            0 <= i < chain.len() && #[trigger] names_taskbar(chain, i),
{
}

} // verus!
