//! The text of a row: hex pairs, their ASCII mirror, and offset labels.

use vstd::prelude::*;
use vstd::utf8::is_ascii_chars;

verus! {

/// The replacement shown in the ASCII mirror for a byte that is not printable.
pub const PLACEHOLDER: char = '.';

/// The number of digits an offset label has at least.
pub const OFFSET_DIGITS: usize = 8;

/// A byte is printable where it lies in `[0x20, 0x7F)`.
pub open spec fn is_printable(b: u8) -> bool {
    0x20 <= b < 0x7F
}

/// Whether a byte is shown as itself in the ASCII mirror.
pub fn printable(b: u8) -> (r: bool)
    ensures
        r == is_printable(b),
{
    0x20 <= b && b < 0x7F
}

/// The upper-case hexadecimal digit of a value below sixteen.
pub open spec fn hex_digit(n: int) -> char {
    if n < 10 {
        (48 + n) as u8 as char
    } else {
        (55 + n) as u8 as char
    }
}

/// The character at position `i` of the hex text of `bytes`: byte `i / 3`
/// takes positions `3 * (i / 3)` and the next for its high and low digit, and
/// a space follows it.
pub open spec fn hex_char_at(bytes: Seq<u8>, i: int) -> char {
    if i % 3 == 0 {
        hex_digit(bytes[i / 3] as int / 16)
    } else if i % 3 == 1 {
        hex_digit(bytes[i / 3] as int % 16)
    } else {
        ' '
    }
}

/// The length of the hex text of `n` bytes: two digits each and a space
/// between neighbours.
pub open spec fn hex_len(n: int) -> int {
    if n <= 0 {
        0
    } else {
        3 * n - 1
    }
}

/// The hex text of a row: each byte as two upper-case hex digits, separated
/// by single spaces, with no space at the end.
pub open spec fn hex_text(bytes: Seq<u8>) -> Seq<char> {
    Seq::new(hex_len(bytes.len() as int) as nat, |i: int| hex_char_at(bytes, i))
}

/// The character that stands for a byte in the ASCII mirror.
pub open spec fn ascii_char(b: u8) -> char {
    if is_printable(b) {
        b as char
    } else {
        PLACEHOLDER
    }
}

/// The ASCII mirror of a row: one character for each byte.
pub open spec fn ascii_text(bytes: Seq<u8>) -> Seq<char> {
    Seq::new(bytes.len(), |i: int| ascii_char(bytes[i]))
}

/// The bytes `0, 1, .., n - 1`, whose hex text heads the hex block. Behind
/// column 255 the indices start again at 0.
pub open spec fn column_indices(n: int) -> Seq<u8> {
    Seq::new(n as nat, |i: int| (i % 256) as u8)
}

/// The heading of the ASCII block: for each column the low hex digit of its
/// index.
pub open spec fn ascii_header_text(n: int) -> Seq<char> {
    Seq::new(n as nat, |i: int| hex_digit(i % 16))
}

/// The last `width` digits of the upper-case hexadecimal numeral of `v`,
/// with zeros on the left where the numeral is shorter.
pub open spec fn numeral(v: int, width: int) -> Seq<char>
    decreases width,
{
    if width <= 0 {
        Seq::empty()
    } else {
        numeral(v / 16, width - 1).push(hex_digit(v % 16))
    }
}

/// The number of hex digits that `v` needs, and at least `OFFSET_DIGITS`.
pub open spec fn label_width(v: int) -> int
    decreases v,
{
    if v < 0x1_0000_0000 {
        OFFSET_DIGITS as int
    } else {
        1 + label_width(v / 16)
    }
}

/// The label of an offset: its upper-case hexadecimal numeral, padded with
/// zeros on the left to eight digits.
pub open spec fn offset_label_text(v: int) -> Seq<char> {
    numeral(v, label_width(v))
}

/// Appends one character to a string, as `String::push` of the standard
/// library does: the text afterwards is the text before with `c` at its end.
#[verifier::external_body]
fn push_char(s: &mut String, c: char)
    ensures
        final(s)@ == old(s)@.push(c),
{
    s.push(c)
}

/// The upper-case hex digit of `n`.
pub fn digit(n: u8) -> (c: char)
    requires
        n < 16,
    ensures
        c == hex_digit(n as int),
{
    if n < 10 {
        (48 + n) as char
    } else {
        (55 + n) as char
    }
}

/// Formats a row of bytes as hex pairs separated by spaces.
pub fn hex_row(bytes: &[u8]) -> (s: String)
    ensures
        s@ == hex_text(bytes@),
{
    let mut s = String::new();
    let n = bytes.len();
    let mut i: usize = 0;
    while i < n
        invariant
            n == bytes@.len(),
            i <= n,
            s@.len() == (if i == n {
                hex_len(n as int)
            } else {
                3 * i
            }),
            forall|j: int| 0 <= j < s@.len() ==> s@[j] == hex_char_at(bytes@, j),
        decreases n - i,
    {
        let b = bytes[i];
        push_char(&mut s, digit(b / 16));
        push_char(&mut s, digit(b % 16));
        if i != n - 1 {
            push_char(&mut s, ' ');
        }
        i = i + 1;
    }
    assert(s@ =~= hex_text(bytes@));
    s
}

/// Formats a row of bytes as its ASCII mirror.
pub fn ascii_row(bytes: &[u8]) -> (s: String)
    ensures
        s@ == ascii_text(bytes@),
{
    let mut s = String::new();
    let n = bytes.len();
    let mut i: usize = 0;
    while i < n
        invariant
            n == bytes@.len(),
            i <= n,
            s@.len() == i,
            forall|j: int| 0 <= j < i ==> s@[j] == ascii_char(bytes@[j]),
        decreases n - i,
    {
        let b = bytes[i];
        if printable(b) {
            push_char(&mut s, b as char);
        } else {
            push_char(&mut s, PLACEHOLDER);
        }
        i = i + 1;
    }
    assert(s@ =~= ascii_text(bytes@));
    s
}

/// The heading of the hex block for `column_count` columns: the hex text of
/// the column indices.
pub fn bytes_header(column_count: usize) -> (s: String)
    ensures
        s@ == hex_text(column_indices(column_count as int)),
{
    let mut indices: Vec<u8> = Vec::new();
    let mut i: usize = 0;
    while i < column_count
        invariant
            i <= column_count,
            indices@ == column_indices(i as int),
        decreases column_count - i,
    {
        indices.push((i % 256) as u8);
        i = i + 1;
        assert(indices@ =~= column_indices(i as int));
    }
    hex_row(indices.as_slice())
}

/// The heading of the ASCII block for `column_count` columns.
pub fn ascii_header(column_count: usize) -> (s: String)
    ensures
        s@ == ascii_header_text(column_count as int),
{
    let mut s = String::new();
    let mut i: usize = 0;
    while i < column_count
        invariant
            i <= column_count,
            s@ == ascii_header_text(i as int),
        decreases column_count - i,
    {
        push_char(&mut s, digit((i % 16) as u8));
        i = i + 1;
        assert(s@ =~= ascii_header_text(i as int));
    }
    s
}

/// Appends the last `width` hex digits of `v` to a string.
fn push_numeral(s: &mut String, v: u64, width: usize)
    ensures
        final(s)@ == old(s)@ + numeral(v as int, width as int),
    decreases width,
{
    if width > 0 {
        push_numeral(s, v / 16, width - 1);
        push_char(s, digit((v % 16) as u8));
        assert(s@ =~= old(s)@ + numeral(v as int, width as int));
    } else {
        assert(s@ =~= old(s)@ + numeral(v as int, width as int));
    }
}

/// The number of digits of the label of `v`.
fn label_digits(v: u64) -> (w: usize)
    ensures
        w == label_width(v as int),
        8 <= w <= 16,
    decreases v,
{
    if v < 0x1_0000_0000 {
        proof {
            lemma_label_width_bound(v as int);
        }
        OFFSET_DIGITS
    } else {
        let rest = label_digits(v / 16);
        proof {
            lemma_label_width_bound(v as int);
        }
        rest + 1
    }
}

/// A label has at most as many digits as an offset of 64 bits needs.
proof fn lemma_label_width_bound(v: int)
    requires
        0 <= v <= 0xffff_ffff_ffff_ffff,
    ensures
        8 <= label_width(v) <= 16,
{
    reveal_with_fuel(label_width, 10);
}

/// Formats an offset as its label: eight upper-case hex digits, or as many
/// as it takes.
pub fn offset_label(v: usize) -> (s: String)
    ensures
        s@ == offset_label_text(v as int),
{
    let mut s = String::new();
    let wide: u64 = v as u64;
    push_numeral(&mut s, wide, label_digits(wide));
    s
}

/// Every character of a hex text is an ASCII character.
pub proof fn lemma_hex_text_ascii(bytes: Seq<u8>)
    ensures
        is_ascii_chars(hex_text(bytes)),
{
}

/// Every character of an ASCII mirror is an ASCII character.
pub proof fn lemma_ascii_text_ascii(bytes: Seq<u8>)
    ensures
        is_ascii_chars(ascii_text(bytes)),
{
}

} // verus!
