//! The line that announces a block of a fuzzing corpus: the block's bytes in
//! hexadecimal.

use vstd::prelude::*;

verus! {

/// The hexadecimal digit for `n`, which is below sixteen, in lower case.
pub open spec fn hex_digit(n: int) -> char {
    seq!['0', '1', '2', '3', '4', '5', '6', '7', '8', '9', 'a', 'b', 'c', 'd', 'e', 'f'][n]
}

/// `bytes` in hexadecimal: two digits for each byte, the high half first.
pub open spec fn hex_of(bytes: Seq<u8>) -> Seq<char>
    decreases bytes.len(),
{
    if bytes.len() == 0 {
        Seq::empty()
    } else {
        hex_of(bytes.drop_last()).push(hex_digit(bytes.last() as int / 16)).push(
            hex_digit(bytes.last() as int % 16),
        )
    }
}

/// The longest block that a line can be written for: the line has two
/// characters for each byte, and six more.
pub open spec fn longest_block() -> int {
    (isize::MAX - 6) / 2
}

/// The line for a block: the word `Block`, a space, and the block's bytes in
/// hexadecimal.
pub open spec fn corpus_line_of(block: Seq<u8>) -> Seq<char> {
    "Block "@ + hex_of(block)
}

/// `hex::encode`, which is believed and not proved here. It writes each byte
/// as two hexadecimal digits in lower case, the high half first, and nothing
/// else. The text must fit into a `String`.
#[verifier::external_body]
fn encode_hex(bytes: &[u8]) -> (text: String)
    requires
        bytes@.len() <= longest_block(),
    ensures
        text@ == hex_of(bytes@),
{
    hex::encode(bytes)
}

/// Whether a line can be written for a block of `len` bytes.
pub fn fits(len: usize) -> (yes: bool)
    ensures
        yes == (len <= longest_block()),
{
    len <= (isize::MAX as usize - 6) / 2
}

/// The line that announces `block`.
pub fn corpus_line(block: &[u8]) -> (line: String)
    requires
        block@.len() <= longest_block(),
    ensures
        line@ == corpus_line_of(block@),
{
    let mut line: String = String::from_str("Block ");
    let digits: String = encode_hex(block);
    line.append(digits.as_str());
    line
}

} // verus!
