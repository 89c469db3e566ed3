use dalek_keccak::bits::rotate_left;
use dalek_keccak::keccak::{State, ROTATION_CONSTANTS, ROUND_CONSTANTS};

#[test]
fn round_on_zero_state() {
    let expected = State([
        [
            0xF1258F7940E1DDE7,
            0x84D5CCF933C0478A,
            0xD598261EA65AA9EE,
            0xBD1547306F80494D,
            0x8B284E056253D057,
        ],
        [
            0xFF97A42D7F8E6FD4,
            0x90FEE5A0A44647C4,
            0x8C5BDA0CD6192E76,
            0xAD30A6F71B19059C,
            0x30935AB7D08FFC64,
        ],
        [
            0xEB5AA93F2317D635,
            0xA9A6E6260D712103,
            0x81A57C16DBCF555F,
            0x43B831CD0347C826,
            0x01F22F1A11A5569F,
        ],
        [
            0x05E5635A21D9AE61,
            0x64BEFEF28CC970F2,
            0x613670957BC46611,
            0xB87C5A554FD00ECB,
            0x8C3EE88A1CCF32C8,
        ],
        [
            0x940C7922AE3A2614,
            0x1841F924A2C509E4,
            0x16F53526E70465C2,
            0x75F644E97F30A13B,
            0xEAF1FF7B5CECA249,
        ],
    ]);

    let mut zero = State([[0; 5]; 5]);
    zero.keccakf();

    assert_eq!(zero.0, expected.0);
}

#[test]
fn zero_is_all_zero_lanes() {
    assert_eq!(State::zero().0, [[0u64; 5]; 5]);
}

#[test]
fn second_permutation_of_zero_state() {
    let mut s = State::zero();
    s.keccakf();
    s.keccakf();
    let expected: [[u64; 5]; 5] = [
        [0x2D5C954DF96ECB3C, 0x6A332CD07057B56D, 0x093D8D1270D76B6C, 0x8A20D9B25569D094, 0x4F9C4F99E5E7F156],
        [0xF957B9A2DA65FB38, 0x85773DAE1275AF0D, 0xFAF4F247C3D810F7, 0x1F1B9EE6F79A8759, 0xE4FECC0FEE98B425],
        [0x68CE61B6B9CE68A1, 0xDEEA66C4BA8F974F, 0x33C43D836EAFB1F5, 0xE00654042719DBD9, 0x7CF8A9F009831265],
        [0xFD5449A6BF174743, 0x97DDAD33D8994B40, 0x48EAD5FC5D0BE774, 0xE3B8C8EE55B7B03C, 0x91A0226E649E42E9],
        [0x900E3129E7BADD7B, 0x202A9EC5FAA3CCE8, 0x5B3402464E1C3DB6, 0x609F4E62A44C1059, 0x20D06CD26A8FBF5C],
    ];
    assert_eq!(s.0, expected);
}

#[test]
fn first_round_on_zero_state_sets_only_the_round_constant() {
    let mut s = State::zero();
    s.round(ROUND_CONSTANTS[0]);
    let mut expected = [[0u64; 5]; 5];
    expected[0][0] = 1;
    assert_eq!(s.0, expected);
}

#[test]
fn one_round_on_a_mixed_state() {
    let mut s = State([
        [0x9F143CDEF6E1B1FA, 0x3CFF51C13A411EDD, 0xDAEEBC759FB58744, 0x78F98E490C1C89E9, 0x170754C904EED0B7],
        [0xB5DD78EB3F6B0E89, 0x53CC854B996397E8, 0xF19FA5670B669915, 0x8FE173D30104E063, 0x2E23DB15C4A586BD],
        [0xCC2AEBA19A59A79C, 0x6ABDDC1D0648A941, 0x08C31A3D0E52F1CF, 0xA701B20FCA5F9749, 0x4544ACCBEB7BEA0C],
        [0xE353F33B0592B8ED, 0x81BD21070B6881BB, 0x1FEF9521CF71E715, 0xBE1A85D1ECA19AB8, 0x5C57C4F73EC2E63F],
        [0xFA9EC86109869167, 0x98CD6FDBCC2BF7A1, 0x36FF62BFF1978AD4, 0xD5312FE921E8F663, 0x736BC05809CFB5C0],
    ]);
    s.round(ROUND_CONSTANTS[5]);
    let expected: [[u64; 5]; 5] = [
        [0xF1A817F02EBFF1DF, 0x78212F325D8C68E2, 0x350CE311D5FDCE43, 0x36AA8758CC285259, 0x091947198044E5A1],
        [0x8D10096C5C5F3254, 0x70CB1B57ACEEF6C1, 0x7D5294FF01D719DC, 0x968C0D7AC69F43C4, 0x39CB8FE6F254FB90],
        [0xB18CDAD8D296721C, 0xE10A5D9556BA1A6E, 0x199B86B1C11E3673, 0x1808DED35086FA9D, 0xCD3D42A04D22C01B],
        [0xCF09710326B106C6, 0x745CC66F3F58ACE6, 0x98E7E351226A2E02, 0x0D9A0CA1CCA7BAFE, 0xFE3DA158F9F1CCB3],
        [0xB4914E592ED00C67, 0x65636DF7EB4E8ECE, 0x7D8527081DBF7D6F, 0xDFF29513F4D05FBD, 0x8998F87F6D8189F1],
    ];
    assert_eq!(s.0, expected);
}

#[test]
fn permutation_is_the_rounds_in_order() {
    let start = State([
        [0x9F143CDEF6E1B1FA, 0x3CFF51C13A411EDD, 0xDAEEBC759FB58744, 0x78F98E490C1C89E9, 0x170754C904EED0B7],
        [0xB5DD78EB3F6B0E89, 0x53CC854B996397E8, 0xF19FA5670B669915, 0x8FE173D30104E063, 0x2E23DB15C4A586BD],
        [0xCC2AEBA19A59A79C, 0x6ABDDC1D0648A941, 0x08C31A3D0E52F1CF, 0xA701B20FCA5F9749, 0x4544ACCBEB7BEA0C],
        [0xE353F33B0592B8ED, 0x81BD21070B6881BB, 0x1FEF9521CF71E715, 0xBE1A85D1ECA19AB8, 0x5C57C4F73EC2E63F],
        [0xFA9EC86109869167, 0x98CD6FDBCC2BF7A1, 0x36FF62BFF1978AD4, 0xD5312FE921E8F663, 0x736BC05809CFB5C0],
    ]);
    let mut by_rounds = start.clone();
    for rc in ROUND_CONSTANTS.iter() {
        by_rounds.round(*rc);
    }
    let mut at_once = start.clone();
    at_once.keccakf();
    assert_eq!(by_rounds.0, at_once.0);
    let expected: [[u64; 5]; 5] = [
        [0x8708A120262ED8C2, 0x9D1944BB58A80D0B, 0xE76EA6D7BC09D227, 0x0215D7E23C982F49, 0x57C5CE707DBEE40C],
        [0x78C100465A13965C, 0x803E488E710D8C03, 0x898F18E60035F9BF, 0xAFDBB97D29DDD17D, 0x34C4E5268157492A],
        [0xCE9C030BDAC6800C, 0x134F5E9748173A89, 0x1CF514B09F49E2B2, 0xEADD77ED93A5382B, 0x5AECC53E705FC812],
        [0x79BC14987D9E649A, 0xF112A269508EBA93, 0x2C569FE4C3F16415, 0x232DE411A31C3A8C, 0xCA19A5702B3BDF23],
        [0x4152D795EE09B0DF, 0x8FCE68398788EE79, 0x0FA460DF81A4E4FD, 0xF682C8B7BB0DD1F8, 0xB05C46165F438964],
    ];
    assert_eq!(at_once.0, expected);
}

#[test]
fn permutation_of_equal_states_is_equal() {
    let mut a = State([
        [0x9F143CDEF6E1B1FA, 0x3CFF51C13A411EDD, 0xDAEEBC759FB58744, 0x78F98E490C1C89E9, 0x170754C904EED0B7],
        [0xB5DD78EB3F6B0E89, 0x53CC854B996397E8, 0xF19FA5670B669915, 0x8FE173D30104E063, 0x2E23DB15C4A586BD],
        [0xCC2AEBA19A59A79C, 0x6ABDDC1D0648A941, 0x08C31A3D0E52F1CF, 0xA701B20FCA5F9749, 0x4544ACCBEB7BEA0C],
        [0xE353F33B0592B8ED, 0x81BD21070B6881BB, 0x1FEF9521CF71E715, 0xBE1A85D1ECA19AB8, 0x5C57C4F73EC2E63F],
        [0xFA9EC86109869167, 0x98CD6FDBCC2BF7A1, 0x36FF62BFF1978AD4, 0xD5312FE921E8F663, 0x736BC05809CFB5C0],
    ]);
    let mut b = a.clone();
    a.keccakf();
    b.keccakf();
    assert_eq!(a.0, b.0);
}

#[test]
fn rotation_table_has_the_published_offsets() {
    assert_eq!(ROTATION_CONSTANTS[0], [0, 1, 62, 28, 27]);
    assert_eq!(ROTATION_CONSTANTS[1], [36, 44, 6, 55, 20]);
    assert_eq!(ROTATION_CONSTANTS[2], [3, 10, 43, 25, 39]);
    assert_eq!(ROTATION_CONSTANTS[3], [41, 45, 15, 21, 8]);
    assert_eq!(ROTATION_CONSTANTS[4], [18, 2, 61, 56, 14]);
}

#[test]
fn round_constants_first_and_last() {
    assert_eq!(ROUND_CONSTANTS.len(), 24);
    assert_eq!(ROUND_CONSTANTS[0], 0x0000000000000001);
    assert_eq!(ROUND_CONSTANTS[1], 0x0000000000008082);
    assert_eq!(ROUND_CONSTANTS[23], 0x8000000080008008);
}

#[test]
fn rotate_left_exact_values() {
    assert_eq!(rotate_left(0x0123456789ABCDEF, 0), 0x0123456789ABCDEF);
    assert_eq!(rotate_left(1, 1), 2);
    assert_eq!(rotate_left(1, 63), 0x8000000000000000);
    assert_eq!(rotate_left(0x8000000000000001, 1), 3);
    assert_eq!(rotate_left(0x0123456789ABCDEF, 4), 0x123456789ABCDEF0);
    assert_eq!(rotate_left(0x0123456789ABCDEF, 36), 0x9ABCDEF012345678);
    for n in 0..64u32 {
        assert_eq!(rotate_left(0xDEADBEEF01234567, n), 0xDEADBEEF01234567u64.rotate_left(n));
    }
}

#[test]
fn byte_view_is_little_endian_in_row_order() {
    let mut s = State::zero();
    for y in 0..5 {
        for x in 0..5 {
            let mut lane: u64 = 0;
            for k in 0..8 {
                lane |= ((8 * (5 * y + x) + k) as u64) << (8 * k);
            }
            s.0[y][x] = lane;
        }
    }
    for i in 0..200 {
        assert_eq!(s.byte(i), i as u8);
    }
    let mut t = State::zero();
    t.0[1][2] = 0x1122334455667788;
    assert_eq!(t.byte(56), 0x88);
    assert_eq!(t.byte(57), 0x77);
    assert_eq!(t.byte(63), 0x11);
    assert_eq!(t.byte(55), 0);
    assert_eq!(t.byte(64), 0);
}

#[test]
fn xor_byte_changes_one_byte_of_one_lane() {
    let mut s = State::zero();
    s.0[0][1] = 0xFFFFFFFFFFFFFFFF;
    s.xor_byte(10, 0x0F);
    assert_eq!(s.0[0][1], 0xFFFFFFFFFFF0FFFF);
    s.xor_byte(199, 0x80);
    assert_eq!(s.0[4][4], 0x8000000000000000);
    s.xor_byte(0, 0x06);
    assert_eq!(s.0[0][0], 0x06);
    s.xor_byte(0, 0x06);
    assert_eq!(s.0[0][0], 0);
    for y in 0..5 {
        for x in 0..5 {
            if (x, y) != (1, 0) && (x, y) != (4, 4) {
                assert_eq!(s.0[y][x], 0);
            }
        }
    }
}

#[test]
fn xor_block_xors_the_leading_bytes() {
    let mut s = State::zero();
    let block: Vec<u8> = (1..=20u8).collect();
    s.xor_block(&block);
    assert_eq!(s.0[0][0], 0x0807060504030201);
    assert_eq!(s.0[0][1], 0x100F0E0D0C0B0A09);
    assert_eq!(s.0[0][2], 0x0000000014131211);
    assert_eq!(s.0[0][3], 0);
    for i in 0..200 {
        let expected = if i < 20 { i as u8 + 1 } else { 0 };
        assert_eq!(s.byte(i), expected);
    }
    s.xor_block(&block);
    assert_eq!(s.0, [[0u64; 5]; 5]);
    s.xor_block(&[]);
    assert_eq!(s.0, [[0u64; 5]; 5]);
    let full = vec![0xFFu8; 200];
    s.xor_block(&full);
    assert_eq!(s.0, [[0xFFFFFFFFFFFFFFFFu64; 5]; 5]);
}
