use vstd::prelude::*;

verus! {

/// The host keyboard keys that stand for the sixteen CHIP-8 keys: the block
/// 1 2 3 4 / Q W E R / A S D F / Z X C V. Every other key is `Other`.
#[derive(Clone, Copy, Debug, PartialEq, Eq, Structural)]
pub enum HostKey {
    Num1,
    Num2,
    Num3,
    Num4,
    Q,
    W,
    E,
    R,
    A,
    S,
    D,
    F,
    Z,
    X,
    C,
    V,
    Other,
}

/// Row and column of a key in the host block 1234 / QWER / ASDF / ZXCV.
pub open spec fn host_position(key: HostKey) -> Option<(int, int)> {
    match key {
        HostKey::Num1 => Some((0, 0)),
        HostKey::Num2 => Some((0, 1)),
        HostKey::Num3 => Some((0, 2)),
        HostKey::Num4 => Some((0, 3)),
        HostKey::Q => Some((1, 0)),
        HostKey::W => Some((1, 1)),
        HostKey::E => Some((1, 2)),
        HostKey::R => Some((1, 3)),
        HostKey::A => Some((2, 0)),
        HostKey::S => Some((2, 1)),
        HostKey::D => Some((2, 2)),
        HostKey::F => Some((2, 3)),
        HostKey::Z => Some((3, 0)),
        HostKey::X => Some((3, 1)),
        HostKey::C => Some((3, 2)),
        HostKey::V => Some((3, 3)),
        HostKey::Other => None,
    }
}

/// The CHIP-8 hexadecimal keypad as it is laid out:
/// 1 2 3 C / 4 5 6 D / 7 8 9 E / A 0 B F.
pub open spec fn keypad_layout() -> Seq<Seq<usize>> {
    seq![
        seq![0x1usize, 0x2, 0x3, 0xC],
        seq![0x4usize, 0x5, 0x6, 0xD],
        seq![0x7usize, 0x8, 0x9, 0xE],
        seq![0xAusize, 0x0, 0xB, 0xF],
    ]
}

/// The CHIP-8 key that a host key stands for: the key at the same place of
/// the keypad.
pub open spec fn keypad_key(key: HostKey) -> Option<usize> {
    match host_position(key) {
        Some((row, col)) => Some(keypad_layout()[row][col]),
        None => None,
    }
}

/// The CHIP-8 key (0x0 to 0xF) that a host key stands for, or `None` for a
/// key outside the block.
pub fn map_key(key: HostKey) -> (chip8_key: Option<usize>)
    ensures
        chip8_key == keypad_key(key),
{
    match key {
        HostKey::X => Some(0x0),
        HostKey::Num1 => Some(0x1),
        HostKey::Num2 => Some(0x2),
        HostKey::Num3 => Some(0x3),

        HostKey::Q => Some(0x4),
        HostKey::W => Some(0x5),
        HostKey::E => Some(0x6),
        HostKey::A => Some(0x7),

        HostKey::S => Some(0x8),
        HostKey::D => Some(0x9),
        HostKey::Z => Some(0xA),
        HostKey::C => Some(0xB),

        HostKey::Num4 => Some(0xC),
        HostKey::R => Some(0xD),
        HostKey::F => Some(0xE),
        HostKey::V => Some(0xF),

        _ => None,
    }
}

/// Every CHIP-8 key has exactly one host key, and no two host keys stand for
/// the same CHIP-8 key.
pub proof fn lemma_keypad_one_to_one(a: HostKey, b: HostKey, k: usize)
    ensures
        keypad_key(a) is Some ==> keypad_key(a)->0 < 16,
        keypad_key(a) is Some && keypad_key(a) == keypad_key(b) ==> a == b,
        k < 16 ==> exists|h: HostKey| #[trigger] keypad_key(h) == Some(k),
{
    if k < 16 {
        let h = if k == 0 { HostKey::X } else if k == 1 { HostKey::Num1 } else if k == 2 { HostKey::Num2 }
            else if k == 3 { HostKey::Num3 } else if k == 4 { HostKey::Q } else if k == 5 { HostKey::W }
            else if k == 6 { HostKey::E } else if k == 7 { HostKey::A } else if k == 8 { HostKey::S }
            else if k == 9 { HostKey::D } else if k == 10 { HostKey::Z } else if k == 11 { HostKey::C }
            else if k == 12 { HostKey::Num4 } else if k == 13 { HostKey::R } else if k == 14 { HostKey::F }
            else { HostKey::V };
        assert(keypad_key(h) == Some(k));
    }
}

}
