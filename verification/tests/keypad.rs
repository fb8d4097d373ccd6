use chipd::{map_key, HostKey};

#[test]
fn keypad_layout_matches_host_block() {
    let host = [
        [HostKey::Num1, HostKey::Num2, HostKey::Num3, HostKey::Num4],
        [HostKey::Q, HostKey::W, HostKey::E, HostKey::R],
        [HostKey::A, HostKey::S, HostKey::D, HostKey::F],
        [HostKey::Z, HostKey::X, HostKey::C, HostKey::V],
    ];
    let chip8 = [[0x1, 0x2, 0x3, 0xC], [0x4, 0x5, 0x6, 0xD], [0x7, 0x8, 0x9, 0xE], [0xA, 0x0, 0xB, 0xF]];
    for row in 0..4 {
        for col in 0..4 {
            assert_eq!(map_key(host[row][col]), Some(chip8[row][col]));
        }
    }
}

#[test]
fn every_chip8_key_has_one_host_key() {
    let all = [
        HostKey::Num1, HostKey::Num2, HostKey::Num3, HostKey::Num4, HostKey::Q, HostKey::W,
        HostKey::E, HostKey::R, HostKey::A, HostKey::S, HostKey::D, HostKey::F, HostKey::Z,
        HostKey::X, HostKey::C, HostKey::V, HostKey::Other,
    ];
    for k in 0..16usize {
        assert_eq!(all.iter().filter(|h| map_key(**h) == Some(k)).count(), 1);
    }
}

#[test]
fn other_keys_are_not_mapped() {
    assert_eq!(map_key(HostKey::Other), None);
}
