use token_ledger::ident::{put_word, word_at, AccountId, Hash256};

#[test]
fn bytes_are_read_most_significant_first() {
    let mut bytes = [0u8; 32];
    bytes[15] = 1;
    bytes[30] = 2;
    bytes[31] = 3;
    let id = AccountId::from_bytes(bytes);
    assert_eq!(id, AccountId { hi: 1, lo: 0x0203 });
    let h = Hash256::from_bytes(bytes);
    assert_eq!(h, Hash256 { hi: 1, lo: 515 });
    assert_eq!(word_at(&bytes, 8), 1u128 << 64);
}

#[test]
fn all_ones_and_all_zeros() {
    assert_eq!(AccountId::from_bytes([0xff; 32]), AccountId { hi: u128::MAX, lo: u128::MAX });
    assert_eq!(AccountId::from_bytes([0; 32]), AccountId { hi: 0, lo: 0 });
    assert_eq!(
        Hash256::from_bytes([1; 32]),
        Hash256 { hi: 0x0101_0101_0101_0101_0101_0101_0101_0101, lo: 0x0101_0101_0101_0101_0101_0101_0101_0101 }
    );
}

#[test]
fn words_and_identifiers_convert_both_ways() {
    let id = AccountId { hi: 7, lo: 9 };
    assert_eq!(id.word(), (7, 9));
    assert_eq!(AccountId::of_word((7, 9)), id);
    let h = Hash256 { hi: 3, lo: 4 };
    assert_eq!(h.word(), (3, 4));
    assert_eq!(Hash256::of_word((3, 4)), h);
}

#[test]
fn bytes_are_written_as_they_are_read() {
    let mut bytes = [0u8; 32];
    for (i, b) in bytes.iter_mut().enumerate() {
        *b = (7 * i + 3) as u8;
    }
    let id = AccountId::from_bytes(bytes);
    assert_eq!(id.to_bytes(), bytes);
    assert_eq!(Hash256::from_bytes(bytes).to_bytes(), bytes);
    assert_eq!(AccountId { hi: 1, lo: 0x0203 }.to_bytes()[15], 1);
    assert_eq!(AccountId { hi: 1, lo: 0x0203 }.to_bytes()[30..], [2, 3]);
    assert_eq!(AccountId { hi: u128::MAX, lo: 0 }.to_bytes()[..17], [255, 255, 255, 255, 255, 255, 255, 255, 255, 255, 255, 255, 255, 255, 255, 255, 0]);
    assert_eq!(Hash256 { hi: 0, lo: u128::MAX }.to_bytes()[15..17], [0, 255]);
}

#[test]
fn a_word_is_put_where_it_is_read() {
    let mut out = [9u8; 32];
    put_word(&mut out, 8, 0x0102_0304);
    assert_eq!(word_at(&out, 8), 0x0102_0304);
    assert_eq!(out[..8], [9; 8]);
    assert_eq!(out[24..], [9; 8]);
    assert_eq!(out[20..24], [1, 2, 3, 4]);
}
