use vstd::prelude::*;

verus! {

/// The keypad key that a host key stands for, keys being named by the
/// character on them. The 4x4 block `1234 / QWER / ASDF / ZXCV` stands for
/// the keypad `123C / 456D / 789E / A0BF`.
pub open spec fn key_of(c: char) -> Option<usize> {
    match c {
        '1' => Some(0x1),
        '2' => Some(0x2),
        '3' => Some(0x3),
        '4' => Some(0xC),
        'Q' => Some(0x4),
        'W' => Some(0x5),
        'E' => Some(0x6),
        'R' => Some(0xD),
        'A' => Some(0x7),
        'S' => Some(0x8),
        'D' => Some(0x9),
        'F' => Some(0xE),
        'Z' => Some(0xA),
        'X' => Some(0x0),
        'C' => Some(0xB),
        'V' => Some(0xF),
        _ => None,
    }
}

/// The keypad key for the host key named `c`, if it has one.
pub fn keypad_key(c: char) -> (r: Option<usize>)
    ensures
        r == key_of(c),
        r is Some ==> r->Some_0 < 16,
{
    match c {
        '1' => Some(0x1),
        '2' => Some(0x2),
        '3' => Some(0x3),
        '4' => Some(0xC),
        'Q' => Some(0x4),
        'W' => Some(0x5),
        'E' => Some(0x6),
        'R' => Some(0xD),
        'A' => Some(0x7),
        'S' => Some(0x8),
        'D' => Some(0x9),
        'F' => Some(0xE),
        'Z' => Some(0xA),
        'X' => Some(0x0),
        'C' => Some(0xB),
        'V' => Some(0xF),
        _ => None,
    }
}

/// The keypad state when the host keys named in `pressed` are down: key `k`
/// is down exactly when some pressed host key stands for it.
pub fn keypad_state(pressed: &[char]) -> (r: [bool; 16])
    ensures
        forall|k: int|
            0 <= k < 16 ==> (#[trigger] r@[k] <==> exists|j: int|
                0 <= j < pressed@.len() && key_of(#[trigger] pressed@[j]) == Some(k as usize)),
{
    let mut keys = [false; 16];
    let mut j: usize = 0;
    while j < pressed.len()
        invariant
            j <= pressed@.len(),
            forall|k: int|
                0 <= k < 16 ==> (#[trigger] keys@[k] <==> exists|i: int|
                    0 <= i < j && key_of(#[trigger] pressed@[i]) == Some(k as usize)),
        decreases pressed@.len() - j,
    {
        if let Some(k) = keypad_key(pressed[j]) {
            keys[k] = true;
        }
        proof {
            assert forall|k: int| 0 <= k < 16 implies (#[trigger] keys@[k] <==> exists|i: int|
                0 <= i < j + 1 && key_of(#[trigger] pressed@[i]) == Some(k as usize)) by {
                if keys@[k] && !(exists|i: int|
                    0 <= i < j && key_of(#[trigger] pressed@[i]) == Some(k as usize)) {
                    assert(key_of(pressed@[j as int]) == Some(k as usize));
                }
                if exists|i: int|
                    0 <= i < j + 1 && key_of(#[trigger] pressed@[i]) == Some(k as usize) {
                    let i = choose|i: int|
                        0 <= i < j + 1 && key_of(#[trigger] pressed@[i]) == Some(k as usize);
                    if i == j {
                        assert(keys@[k]);
                    }
                }
            }
        }
        j = j + 1;
    }
    keys
}

} // verus!
