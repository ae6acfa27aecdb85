use keystore_import::corpus::{corpus_line, fits};

#[test]
fn line_holds_the_bytes_in_lower_case_hex() {
    assert_eq!(corpus_line(&[1, 2, 3, 15, 16]), "Block 0102030f10");
    assert_eq!(corpus_line(&[0xff, 0xa0, 0x0b, 0x00]), "Block ffa00b00");
    assert_eq!(corpus_line(b"Hello world!"), "Block 48656c6c6f20776f726c6421");
}

#[test]
fn line_for_an_empty_block() {
    assert_eq!(corpus_line(&[]), "Block ");
}

#[test]
fn line_has_two_digits_for_each_byte() {
    let block: Vec<u8> = (0..=255u8).collect();
    let line = corpus_line(&block);
    assert_eq!(line.len(), 6 + 2 * 256);
    for (i, byte) in block.iter().enumerate() {
        assert_eq!(&line[6 + 2 * i..8 + 2 * i], format!("{:02x}", byte));
    }
}

#[test]
fn blocks_that_fit() {
    assert!(fits(0));
    assert!(fits(1 << 20));
    assert!(fits((isize::MAX as usize - 6) / 2));
    assert!(!fits((isize::MAX as usize - 6) / 2 + 1));
    assert!(!fits(usize::MAX));
}
