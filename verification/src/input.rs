use vstd::prelude::*;

verus! {

/// Virtual-key code of the Alt key (`VK_MENU`).
pub const VK_MENU: u8 = 0x12;
/// Virtual-key code of the Ctrl key (`VK_CONTROL`).
pub const VK_CONTROL: u8 = 0x11;
/// Virtual-key code of the Shift key (`VK_SHIFT`).
pub const VK_SHIFT: u8 = 0x10;
/// Virtual-key code of the Tab key (`VK_TAB`).
pub const VK_TAB: u8 = 0x09;
/// Virtual-key code of the T key.
pub const VK_T: u8 = 0x54;
/// Virtual-key code of the W key.
pub const VK_W: u8 = 0x57;
/// Virtual-key code of the "volume mute" media key (`VK_VOLUME_MUTE`).
pub const VK_VOLUME_MUTE: u8 = 0xAD;
/// Virtual-key code of the "volume down" media key (`VK_VOLUME_DOWN`).
pub const VK_VOLUME_DOWN: u8 = 0xAE;
/// Virtual-key code of the "volume up" media key (`VK_VOLUME_UP`).
pub const VK_VOLUME_UP: u8 = 0xAF;

/// Window message posted for the left mouse button going down.
pub const WM_LBUTTONDOWN: u32 = 0x0201;
/// Window message posted for the left mouse button going up.
pub const WM_LBUTTONUP: u32 = 0x0202;
/// Window message posted for the right mouse button going down.
pub const WM_RBUTTONDOWN: u32 = 0x0204;
/// Window message posted for the right mouse button going up.
pub const WM_RBUTTONUP: u32 = 0x0205;
/// Window message posted for the middle mouse button going down.
pub const WM_MBUTTONDOWN: u32 = 0x0207;
/// Window message posted for a turn of the mouse wheel.
pub const WM_MOUSEWHEEL: u32 = 0x020A;

/// The high-order 16 bits of a 32-bit value (Win32 `HIWORD`).
pub open spec fn spec_high_word(value: u32) -> u16 {
    (value as int / 0x10000) as u16
}

/// Returns the high-order word of `value`, as mouse hooks read the wheel
/// delta out of `mouseData`.
pub fn high_word(value: u32) -> (word: u16)
    ensures
        word == spec_high_word(value),
        word as int == value as int / 0x10000,
{
    let shifted: u32 = value >> 16u32;
    assert(shifted == value / 0x10000) by (bit_vector)
        requires
            shifted == value >> 16u32,
    ;
    assert(shifted & 0xffff == shifted) by (bit_vector)
        requires
            shifted == value / 0x10000,
    ;
    (shifted & 0xffff) as u16
}

/// The signed wheel delta carried in the high word of `mouseData`: the
/// high word read as a two's complement 16-bit number.
pub open spec fn spec_wheel_delta(mouse_data: u32) -> int {
    let w = spec_high_word(mouse_data) as int;
    if w >= 0x8000 {
        w - 0x10000
    } else {
        w
    }
}

/// Returns the wheel delta of a mouse-wheel event: positive when the wheel
/// was turned away from the user, negative when turned toward the user.
pub fn wheel_delta(mouse_data: u32) -> (delta: i16)
    ensures
        delta as int == spec_wheel_delta(mouse_data),
{
    let w = high_word(mouse_data);
    if w >= 0x8000 {
        (w as i32 - 0x10000) as i16
    } else {
        w as i16
    }
}

/// Whether a key is held, given the state word that `GetAsyncKeyState`
/// returned for it: the most significant bit is set while the key is down.
pub fn key_state_down(state: i16) -> (down: bool)
    ensures
        down == (state < 0),
{
    let bits = state as u16;
    assert((bits & 0x8000u16 != 0) == (state < 0)) by (bit_vector)
        requires
            bits == state as u16,
    ;
    bits & 0x8000 != 0
}

/// One synthetic keyboard event: `key` pressed, or released when `release`.
#[derive(Clone, Copy, Debug, PartialEq, Eq, Structural)]
pub struct KeyEvent {
    pub key: u8,
    pub release: bool,
}

/// The event that presses `key`.
pub open spec fn press(key: u8) -> KeyEvent {
    KeyEvent { key, release: false }
}

/// The event that releases `key`.
pub open spec fn release(key: u8) -> KeyEvent {
    KeyEvent { key, release: true }
}

/// Returns the event that presses `key`.
pub fn key_down(key: u8) -> (event: KeyEvent)
    ensures
        event == press(key),
{
    KeyEvent { key, release: false }
}

/// Returns the event that releases `key`.
pub fn key_up(key: u8) -> (event: KeyEvent)
    ensures
        event == release(key),
{
    KeyEvent { key, release: true }
}

/// Pressing and then releasing `key`.
pub open spec fn spec_tap(key: u8) -> Seq<KeyEvent> {
    seq![press(key), release(key)]
}

/// Presses of each modifier, in the order given.
pub open spec fn presses(mods: Seq<u8>) -> Seq<KeyEvent> {
    Seq::new(mods.len(), |i: int| press(mods[i]))
}

/// Releases of each modifier, last one first.
pub open spec fn releases_reversed(mods: Seq<u8>) -> Seq<KeyEvent> {
    Seq::new(mods.len(), |i: int| release(mods[mods.len() - 1 - i]))
}

/// A key combination: hold the modifiers in order, tap `key`, release the
/// modifiers in reverse order.
pub open spec fn spec_combo(mods: Seq<u8>, key: u8) -> Seq<KeyEvent> {
    presses(mods) + spec_tap(key) + releases_reversed(mods)
}

/// A key combination sent while Alt is held by the user: Alt is released
/// first and pressed again afterwards, so that the target application sees
/// the combination without Alt.
pub open spec fn spec_combo_without_alt(mods: Seq<u8>, key: u8) -> Seq<KeyEvent> {
    seq![release(VK_MENU)] + spec_combo(mods, key) + seq![press(VK_MENU)]
}

/// Returns the events that tap `key`: press, then release.
pub fn tap_key(key: u8) -> (events: Vec<KeyEvent>)
    ensures
        events@ == spec_tap(key),
{
    let mut events = Vec::new();
    events.push(key_down(key));
    events.push(key_up(key));
    events
}

/// Appends the events of the combination `modifiers` + `key` to `events`.
fn push_combo(events: &mut Vec<KeyEvent>, modifiers: &[u8], key: u8)
    ensures
        final(events)@ == old(events)@ + spec_combo(modifiers@, key),
{
    let ghost start = events@;
    let n = modifiers.len();
    let mut i: usize = 0;
    while i < n
        invariant
            n == modifiers@.len(),
            i <= n,
            events@ == start + presses(modifiers@.take(i as int)),
        decreases n - i,
    {
        events.push(key_down(modifiers[i]));
        i += 1;
        assert(presses(modifiers@.take(i as int)) =~= presses(modifiers@.take(i - 1)).push(
            press(modifiers@[i - 1]),
        ));
    }
    assert(modifiers@.take(n as int) =~= modifiers@);
    events.push(key_down(key));
    events.push(key_up(key));
    let ghost middle = events@;
    assert(middle =~= start + presses(modifiers@) + spec_tap(key));
    let mut j: usize = n;
    while j > 0
        invariant
            n == modifiers@.len(),
            j <= n,
            events@ == middle + Seq::new(
                (n - j) as nat,
                |k: int| release(modifiers@[n - 1 - k]),
            ),
        decreases j,
    {
        j -= 1;
        events.push(key_up(modifiers[j]));
        assert(events@ =~= middle + Seq::new(
            (n - j) as nat,
            |k: int| release(modifiers@[n - 1 - k]),
        ));
    }
    assert(Seq::new((n - j) as nat, |k: int| release(modifiers@[n - 1 - k]))
        =~= releases_reversed(modifiers@));
    assert(events@ =~= start + spec_combo(modifiers@, key));
}

/// Returns the events of the combination `modifiers` + `key`: every modifier
/// pressed in order, `key` tapped, the modifiers released in reverse order.
pub fn send_combo(modifiers: &[u8], key: u8) -> (events: Vec<KeyEvent>)
    ensures
        events@ == spec_combo(modifiers@, key),
{
    let mut events = Vec::new();
    push_combo(&mut events, modifiers, key);
    assert(events@ =~= spec_combo(modifiers@, key));
    events
}

/// Returns the events of the combination `modifiers` + `key` sent while the
/// user holds Alt: Alt released, the combination, Alt pressed again.
pub fn send_combo_without_alt(modifiers: &[u8], key: u8) -> (events: Vec<KeyEvent>)
    ensures
        events@ == spec_combo_without_alt(modifiers@, key),
{
    let mut events = Vec::new();
    events.push(key_up(VK_MENU));
    push_combo(&mut events, modifiers, key);
    events.push(key_down(VK_MENU));
    assert(events@ =~= spec_combo_without_alt(modifiers@, key));
    events
}

/// What a low-level mouse hook does with one mouse event: `consume` it
/// (the hook returns a nonzero result and the event goes no further) or
/// pass it on to the next hook; and which key events it sends first.
pub struct HookOutcome {
    pub consume: bool,
    pub keys: Vec<KeyEvent>,
}

/// The outcome that passes the event on and sends nothing.
pub(crate) fn pass_through() -> (outcome: HookOutcome)
    ensures
        !outcome.consume,
        outcome.keys@ == Seq::<KeyEvent>::empty(),
{
    HookOutcome { consume: false, keys: Vec::new() }
}

/// The keys held after `event`, starting from the keys in `held`.
pub open spec fn apply_event(held: Set<u8>, event: KeyEvent) -> Set<u8> {
    if event.release {
        held.remove(event.key)
    } else {
        held.insert(event.key)
    }
}

/// The keys held after `events`, in order, starting from the keys in `held`.
pub open spec fn held_after(held: Set<u8>, events: Seq<KeyEvent>) -> Set<u8>
    decreases events.len(),
{
    if events.len() == 0 {
        held
    } else {
        apply_event(held_after(held, events.drop_last()), events.last())
    }
}

/// The keys listed in `keys`.
pub open spec fn key_set(keys: Seq<u8>) -> Set<u8> {
    Set::new(|k: u8| keys.contains(k))
}

proof fn lemma_held_after_concat(held: Set<u8>, a: Seq<KeyEvent>, b: Seq<KeyEvent>)
    ensures
        held_after(held, a + b) == held_after(held_after(held, a), b),
    decreases b.len(),
{
    if b.len() == 0 {
        assert(a + b =~= a);
    } else {
        lemma_held_after_concat(held, a, b.drop_last());
        assert((a + b).drop_last() =~= a + b.drop_last());
    }
}

proof fn lemma_held_after_one(held: Set<u8>, event: KeyEvent)
    ensures
        held_after(held, seq![event]) == apply_event(held, event),
{
    let empty = Seq::<KeyEvent>::empty();
    assert(seq![event].drop_last() =~= empty);
    assert(held_after(held, empty) == held);
    assert(seq![event].last() == event);
}

proof fn lemma_key_set_push(keys: Seq<u8>, key: u8)
    ensures
        key_set(keys.push(key)) == key_set(keys).insert(key),
{
    assert forall|k: u8| key_set(keys.push(key)).contains(k) == key_set(keys).insert(key).contains(k) by {
        if keys.contains(k) {
            let i = choose|i: int| 0 <= i < keys.len() && keys[i] == k;
            assert(keys.push(key)[i] == k);
        }
        if k == key {
            assert(keys.push(key)[keys.len() as int] == k);
        }
        if keys.push(key).contains(k) && k != key {
            let i = choose|i: int| 0 <= i < keys.push(key).len() && keys.push(key)[i] == k;
            assert(keys[i] == k);
        }
    }
    assert(key_set(keys.push(key)) =~= key_set(keys).insert(key));
}

proof fn lemma_key_set_first(keys: Seq<u8>)
    requires
        keys.len() > 0,
    ensures
        key_set(keys) == key_set(keys.drop_first()).insert(keys[0]),
{
    let rest = keys.drop_first();
    assert forall|k: u8| key_set(keys).contains(k) == key_set(rest).insert(keys[0]).contains(k) by {
        if keys.contains(k) && k != keys[0] {
            let i = choose|i: int| 0 <= i < keys.len() && keys[i] == k;
            assert(rest[i - 1] == k);
        }
        if rest.contains(k) {
            let i = choose|i: int| 0 <= i < rest.len() && rest[i] == k;
            assert(keys[i + 1] == k);
        }
        if k == keys[0] {
            assert(keys.contains(k));
        }
    }
    assert(key_set(keys) =~= key_set(rest).insert(keys[0]));
}

proof fn lemma_held_after_presses(held: Set<u8>, mods: Seq<u8>)
    ensures
        held_after(held, presses(mods)) == held + key_set(mods),
    decreases mods.len(),
{
    if mods.len() == 0 {
        assert(held + key_set(mods) =~= held);
    } else {
        let rest = mods.drop_last();
        lemma_held_after_presses(held, rest);
        assert(presses(mods).drop_last() =~= presses(rest));
        assert(rest.push(mods.last()) =~= mods);
        lemma_key_set_push(rest, mods.last());
        assert(held + key_set(mods) =~= (held + key_set(rest)).insert(mods.last()));
    }
}

proof fn lemma_held_after_releases(held: Set<u8>, mods: Seq<u8>)
    ensures
        held_after(held, releases_reversed(mods)) == held - key_set(mods),
    decreases mods.len(),
{
    if mods.len() == 0 {
        assert(held - key_set(mods) =~= held);
    } else {
        let rest = mods.drop_first();
        lemma_held_after_releases(held, rest);
        assert(releases_reversed(mods).drop_last() =~= releases_reversed(rest));
        lemma_key_set_first(mods);
        assert(held - key_set(mods) =~= (held - key_set(rest)).remove(mods[0]));
    }
}

/// Law: tapping a key leaves it released and every other key as it was.
pub proof fn law_tap_releases_key(held: Set<u8>, key: u8)
    ensures
        held_after(held, spec_tap(key)) == held.remove(key),
{
    lemma_held_after_concat(held, seq![press(key)], seq![release(key)]);
    assert(seq![press(key)] + seq![release(key)] =~= spec_tap(key));
    lemma_held_after_one(held, press(key));
    lemma_held_after_one(held.insert(key), release(key));
    assert(held.insert(key).remove(key) =~= held.remove(key));
}

/// Law: a key combination ends with every key that it pressed released
/// again (the modifiers and the key itself), and leaves every other key as
/// it was.
pub proof fn law_combo_releases_what_it_presses(held: Set<u8>, mods: Seq<u8>, key: u8)
    ensures
        held_after(held, spec_combo(mods, key)) == held - key_set(mods.push(key)),
{
    lemma_held_after_concat(held, presses(mods) + spec_tap(key), releases_reversed(mods));
    lemma_held_after_concat(held, presses(mods), spec_tap(key));
    lemma_held_after_presses(held, mods);
    law_tap_releases_key(held + key_set(mods), key);
    lemma_held_after_releases((held + key_set(mods)).remove(key), mods);
    lemma_key_set_push(mods, key);
    assert(((held + key_set(mods)).remove(key)) - key_set(mods) =~= held - key_set(mods).insert(
        key,
    ));
}

/// Law: a combination sent without Alt ends with Alt held again and every
/// key of the combination released; other keys are left as they were.
pub proof fn law_combo_without_alt_restores_alt(held: Set<u8>, mods: Seq<u8>, key: u8)
    ensures
        held_after(held, spec_combo_without_alt(mods, key)) == (held - key_set(
            mods.push(key),
        )).insert(VK_MENU),
{
    let first = seq![release(VK_MENU)];
    let last = seq![press(VK_MENU)];
    lemma_held_after_concat(held, first + spec_combo(mods, key), last);
    lemma_held_after_concat(held, first, spec_combo(mods, key));
    lemma_held_after_one(held, release(VK_MENU));
    lemma_held_after_one(held_after(held, first + spec_combo(mods, key)), press(VK_MENU));
    assert(first + spec_combo(mods, key) + last =~= spec_combo_without_alt(mods, key));
    law_combo_releases_what_it_presses(held.remove(VK_MENU), mods, key);
    assert((held.remove(VK_MENU) - key_set(mods.push(key))).insert(VK_MENU) =~= (held - key_set(
        mods.push(key),
    )).insert(VK_MENU));
}

/// Law: in a combination sent without Alt, at the moment the key goes down
/// every modifier is held and Alt is not (unless Alt is itself part of the
/// combination).
pub proof fn law_combo_without_alt_key_sees_modifiers_only(
    held: Set<u8>,
    mods: Seq<u8>,
    key: u8,
)
    requires
        !mods.contains(VK_MENU),
        key != VK_MENU,
    ensures
        ({
            let at = held_after(held, spec_combo_without_alt(mods, key).take(mods.len() as int + 2));
            &&& at.contains(key)
            &&& !at.contains(VK_MENU)
            &&& forall|i: int| 0 <= i < mods.len() ==> at.contains(#[trigger] mods[i])
        }),
{
    let first = seq![release(VK_MENU)];
    let prefix = spec_combo_without_alt(mods, key).take(mods.len() as int + 2);
    assert(prefix =~= (first + presses(mods)).push(press(key)));
    lemma_held_after_concat(held, first, presses(mods));
    lemma_held_after_one(held, release(VK_MENU));
    lemma_held_after_presses(held.remove(VK_MENU), mods);
    let at = held_after(held, prefix);
    assert(prefix.drop_last() =~= first + presses(mods));
    assert(at == (held.remove(VK_MENU) + key_set(mods)).insert(key));
    assert forall|i: int| 0 <= i < mods.len() implies at.contains(#[trigger] mods[i]) by {
        assert(key_set(mods).contains(mods[i]));
    }
}

/// Law: the wheel delta is the high word of `mouseData` read as a signed
/// 16-bit number: it lies in `-32768..32768`, agrees with the high word
/// modulo 2^16, is positive exactly when the high word is below `0x8000`
/// and not zero, and negative exactly when it is `0x8000` or more.
pub proof fn law_wheel_delta_sign(mouse_data: u32)
    ensures
        -0x8000 <= spec_wheel_delta(mouse_data) < 0x8000,
        (spec_wheel_delta(mouse_data) - mouse_data as int / 0x10000) % 0x10000 == 0,
        spec_wheel_delta(mouse_data) > 0 <==> (0 < mouse_data as int / 0x10000 < 0x8000),
        spec_wheel_delta(mouse_data) < 0 <==> mouse_data as int / 0x10000 >= 0x8000,
{
}

/// Law: the shape of a key combination, event by event: for `n`
/// modifiers it has `2n + 2` events; first each modifier pressed in the
/// given order, then the key pressed and released, then each modifier
/// released, last one first. Sent without Alt, it is that combination
/// between a release of Alt (`0x12`) and a press of Alt; a tap is a press
/// and a release of the key.
pub proof fn law_combo_events(mods: Seq<u8>, key: u8)
    ensures
        ({
            let c = spec_combo(mods, key);
            let n = mods.len() as int;
            &&& c.len() == 2 * n + 2
            &&& forall|i: int| 0 <= i < n ==> c[i] == (KeyEvent { key: mods[i], release: false })
            &&& c[n] == (KeyEvent { key, release: false })
            &&& c[n + 1] == (KeyEvent { key, release: true })
            &&& forall|j: int|
                n + 2 <= j < 2 * n + 2 ==> #[trigger] c[j] == (KeyEvent {
                    key: mods[2 * n + 1 - j],
                    release: true,
                })
        }),
        ({
            let w = spec_combo_without_alt(mods, key);
            let n = mods.len() as int;
            &&& w.len() == 2 * n + 4
            &&& w[0] == (KeyEvent { key: 0x12u8, release: true })
            &&& w[2 * n + 3] == (KeyEvent { key: 0x12u8, release: false })
            &&& w.subrange(1, 2 * n + 3) == spec_combo(mods, key)
        }),
        spec_tap(key) == seq![KeyEvent { key, release: false }, KeyEvent { key, release: true }],
{
    let c = spec_combo(mods, key);
    let n = mods.len() as int;
    assert forall|i: int| 0 <= i < n implies c[i] == (KeyEvent { key: mods[i], release: false }) by {
        assert(c[i] == presses(mods)[i]);
    }
    assert forall|j: int| n + 2 <= j < 2 * n + 2 implies #[trigger] c[j] == (KeyEvent {
        key: mods[2 * n + 1 - j],
        release: true,
    }) by {
        assert(c[j] == releases_reversed(mods)[j - n - 2]);
    }
    let w = spec_combo_without_alt(mods, key);
    assert(w.subrange(1, 2 * n + 3) =~= c);
}

} // verus!
