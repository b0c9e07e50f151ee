//! Numerals and small pieces of text.

use vstd::prelude::*;

verus! {

/// The character of a digit below sixteen, in lower case.
pub open spec fn digit_char(d: nat) -> char {
    if d < 10 {
        ('0' as nat + d) as char
    } else {
        ('a' as nat + (d - 10) as nat) as char
    }
}

/// Whether `c` is one of the ten decimal digits.
pub open spec fn is_digit(c: char) -> bool {
    '0' <= c <= '9'
}

/// The decimal numeral of `n`, without leading zeros.
pub open spec fn decimal(n: nat) -> Seq<char>
    decreases n,
{
    if n < 10 {
        seq![digit_char(n)]
    } else {
        decimal(n / 10).push(digit_char(n % 10))
    }
}

/// The lower-case hexadecimal numeral of `n`, without leading zeros.
pub open spec fn hexadecimal(n: nat) -> Seq<char>
    decreases n,
{
    if n < 16 {
        seq![digit_char(n)]
    } else {
        hexadecimal(n / 16).push(digit_char(n % 16))
    }
}

/// The two hexadecimal digits of a byte.
pub open spec fn hex_byte(b: u8) -> Seq<char> {
    seq![digit_char(b as nat / 16), digit_char(b as nat % 16)]
}

/// The eight hexadecimal digits of a number of 32 bits.
pub open spec fn hex_word(n: u32) -> Seq<char> {
    hex_byte((n / 0x100_0000) as u8) + hex_byte((n / 0x1_0000 % 0x100) as u8) + hex_byte(
        (n / 0x100 % 0x100) as u8,
    ) + hex_byte((n % 0x100) as u8)
}

/// The decimal numeral of an integer, with a minus sign if it is negative.
pub open spec fn signed(n: int) -> Seq<char> {
    if n < 0 {
        "-"@ + decimal((-n) as nat)
    } else {
        decimal(n as nat)
    }
}

/// The number that a sequence of decimal digits denotes.
pub open spec fn decimal_value(s: Seq<char>) -> nat
    decreases s.len(),
{
    if s.len() == 0 {
        0
    } else {
        10 * decimal_value(s.drop_last()) + (s.last() as nat - '0' as nat) as nat
    }
}

/// A decimal numeral is made of digits, is not empty, starts with a zero only when it is `0`, and
/// reads back as the number it was made from.
pub proof fn lemma_decimal(n: nat)
    ensures
        decimal(n).len() >= 1,
        forall|i: int| 0 <= i < decimal(n).len() ==> is_digit(#[trigger] decimal(n)[i]),
        decimal(n)[0] == '0' ==> n == 0 && decimal(n).len() == 1,
        decimal_value(decimal(n)) == n,
    decreases n,
{
    let d = decimal(n);
    if n < 10 {
        reveal_with_fuel(decimal_value, 2);
    } else {
        lemma_decimal(n / 10);
        assert(d.drop_last() =~= decimal(n / 10));
        assert(d[0] == decimal(n / 10)[0]);
    }
}

/// Different numbers have different decimal numerals.
pub proof fn lemma_decimal_injective(m: nat, n: nat)
    requires
        decimal(m) == decimal(n),
    ensures
        m == n,
{
    lemma_decimal(m);
    lemma_decimal(n);
}

/// Whether `c` is a hexadecimal digit, in lower or upper case.
pub open spec fn is_hex_digit(c: char) -> bool {
    is_digit(c) || 'a' <= c <= 'f' || 'A' <= c <= 'F'
}

/// The number that a hexadecimal digit denotes.
pub open spec fn hex_digit_value(c: char) -> nat {
    if is_digit(c) {
        (c as nat - '0' as nat) as nat
    } else if 'a' <= c <= 'f' {
        (c as nat - 'a' as nat + 10) as nat
    } else {
        (c as nat - 'A' as nat + 10) as nat
    }
}

/// The number that a sequence of hexadecimal digits denotes.
pub open spec fn hexadecimal_value(s: Seq<char>) -> nat
    decreases s.len(),
{
    if s.len() == 0 {
        0
    } else {
        16 * hexadecimal_value(s.drop_last()) + hex_digit_value(s.last())
    }
}

/// A hexadecimal numeral is not empty, is made of digits, and reads back as the number it was made
/// from.
pub proof fn lemma_hexadecimal(n: nat)
    ensures
        hexadecimal(n).len() >= 1,
        forall|i: int| 0 <= i < hexadecimal(n).len() ==> is_hex_digit(#[trigger] hexadecimal(n)[i]),
        hexadecimal_value(hexadecimal(n)) == n,
    decreases n,
{
    let h = hexadecimal(n);
    if n < 16 {
        reveal_with_fuel(hexadecimal_value, 2);
    } else {
        lemma_hexadecimal(n / 16);
        assert(h.drop_last() =~= hexadecimal(n / 16));
    }
}

/// Different numbers have different hexadecimal numerals.
pub proof fn lemma_hexadecimal_injective(m: nat, n: nat)
    requires
        hexadecimal(m) == hexadecimal(n),
    ensures
        m == n,
{
    lemma_hexadecimal(m);
    lemma_hexadecimal(n);
}

/// The one-character text of a digit below sixteen.
pub fn digit_text(d: u8) -> (t: &'static str)
    requires
        d < 16,
    ensures
        t@ == seq![digit_char(d as nat)],
{
    proof {
        reveal_strlit("0");
        reveal_strlit("1");
        reveal_strlit("2");
        reveal_strlit("3");
        reveal_strlit("4");
        reveal_strlit("5");
        reveal_strlit("6");
        reveal_strlit("7");
        reveal_strlit("8");
        reveal_strlit("9");
        reveal_strlit("a");
        reveal_strlit("b");
        reveal_strlit("c");
        reveal_strlit("d");
        reveal_strlit("e");
        reveal_strlit("f");
    }
    match d {
        0 => "0",
        1 => "1",
        2 => "2",
        3 => "3",
        4 => "4",
        5 => "5",
        6 => "6",
        7 => "7",
        8 => "8",
        9 => "9",
        10 => "a",
        11 => "b",
        12 => "c",
        13 => "d",
        14 => "e",
        _ => "f",
    }
}

/// Appends the decimal numeral of `n`.
pub fn push_decimal(s: &mut String, n: u128)
    ensures
        final(s)@ == old(s)@ + decimal(n as nat),
    decreases n,
{
    let ghost before = s@;
    if n >= 10 {
        push_decimal(s, n / 10);
    }
    s.append(digit_text((n % 10) as u8));
    proof {
        assert(s@ =~= before + decimal(n as nat));
    }
}

/// Appends the hexadecimal numeral of `n`.
pub fn push_hexadecimal(s: &mut String, n: u32)
    ensures
        final(s)@ == old(s)@ + hexadecimal(n as nat),
    decreases n,
{
    let ghost before = s@;
    if n >= 16 {
        push_hexadecimal(s, n / 16);
    }
    s.append(digit_text((n % 16) as u8));
    proof {
        assert(s@ =~= before + hexadecimal(n as nat));
    }
}

/// Appends the two hexadecimal digits of `b`.
pub fn push_hex_byte(s: &mut String, b: u8)
    ensures
        final(s)@ == old(s)@ + hex_byte(b),
{
    let ghost before = s@;
    s.append(digit_text(b / 16));
    s.append(digit_text(b % 16));
    proof {
        assert(s@ =~= before + hex_byte(b));
    }
}

/// Appends the eight hexadecimal digits of `n`.
pub fn push_hex_word(s: &mut String, n: u32)
    ensures
        final(s)@ == old(s)@ + hex_word(n),
{
    let ghost before = s@;
    push_hex_byte(s, (n / 0x100_0000) as u8);
    push_hex_byte(s, (n / 0x1_0000 % 0x100) as u8);
    push_hex_byte(s, (n / 0x100 % 0x100) as u8);
    push_hex_byte(s, (n % 0x100) as u8);
    proof {
        assert(s@ =~= before + hex_word(n));
    }
}

/// Appends the decimal numeral of `n`, with a minus sign if it is negative.
pub fn push_signed(s: &mut String, n: i16)
    ensures
        final(s)@ == old(s)@ + signed(n as int),
{
    let ghost before = s@;
    if n < 0 {
        s.append("-");
        push_decimal(s, (-(n as i32)) as u128);
    } else {
        push_decimal(s, n as u128);
    }
    proof {
        assert(s@ =~= before + signed(n as int));
    }
}

/// A message about a connection: the number of the connection, and the message.
pub open spec fn numbered(conn_id: u32, message: Seq<char>) -> Seq<char> {
    "#"@ + decimal(conn_id as nat) + " "@ + message
}

/// A message about a connection: the number of the connection, and the message.
pub fn conn_line(conn_id: u32, message: &str) -> (s: String)
    ensures
        s@ == numbered(conn_id, message@),
{
    let mut s = String::from_str("#");
    push_decimal(&mut s, conn_id as u128);
    s.append(" ");
    s.append(message);
    s
}

/// A line of the log: the time in brackets, and the message.
pub open spec fn stamped(time: Seq<char>, message: Seq<char>) -> Seq<char> {
    "["@ + time + "] "@ + message + "\n"@
}

/// A line of the log: the time in brackets, and the message.
pub fn log_line(time: &str, message: &str) -> (s: String)
    ensures
        s@ == stamped(time@, message@),
{
    let mut s = String::from_str("[");
    s.append(time);
    s.append("] ");
    s.append(message);
    s.append("\n");
    s
}

/// The sixteen hexadecimal digits in lower case.
pub open spec fn hex_digits() -> Seq<char> {
    seq!['0', '1', '2', '3', '4', '5', '6', '7', '8', '9', 'a', 'b', 'c', 'd', 'e', 'f']
}

/// Numerals go by place: the last digit is the rest modulo the base, and what stands before it is
/// the numeral of the quotient.
pub proof fn lemma_numerals_go_by_place(n: nat)
    ensures
        decimal(n).last() == hex_digits()[n as int % 10],
        n < 10 ==> decimal(n).len() == 1,
        n >= 10 ==> decimal(n).drop_last() == decimal(n / 10),
        hexadecimal(n).last() == hex_digits()[n as int % 16],
        n < 16 ==> hexadecimal(n).len() == 1,
        n >= 16 ==> hexadecimal(n).drop_last() == hexadecimal(n / 16),
{
    if n >= 10 {
        assert(decimal(n).drop_last() =~= decimal(n / 10));
    }
    if n >= 16 {
        assert(hexadecimal(n).drop_last() =~= hexadecimal(n / 16));
    }
}

/// The numeral of a byte shows both of its digits, the most significant first.
pub proof fn lemma_hex_byte(b: u8)
    ensures
        hex_byte(b) == seq![hex_digits()[b as int / 16], hex_digits()[b as int % 16]],
{
    assert(digit_char(b as nat / 16) == hex_digits()[b as int / 16]);
    assert(digit_char(b as nat % 16) == hex_digits()[b as int % 16]);
}

/// The numeral of a number of 32 bits is that of its four bytes, the most significant first.
pub proof fn lemma_hex_word(a: u8, b: u8, c: u8, d: u8, n: u32)
    requires
        n == ((a * 0x100 + b) * 0x100 + c) * 0x100 + d,
    ensures
        hex_word(n) == hex_byte(a) + hex_byte(b) + hex_byte(c) + hex_byte(d),
{
    assert(n / 0x100_0000 == a);
    assert(n / 0x1_0000 == a * 0x100 + b);
    assert(n / 0x1_0000 % 0x100 == b);
    assert(n / 0x100 == (a * 0x100 + b) * 0x100 + c);
    assert(n / 0x100 % 0x100 == c);
    assert(n % 0x100 == d);
}

/// A negative number is shown as a minus sign before its magnitude, any other as it is.
pub proof fn lemma_signed(n: nat)
    ensures
        signed(n as int) == decimal(n),
        n > 0 ==> signed(-(n as int)) == seq!['-'] + decimal(n),
{
    reveal_strlit("-");
    assert("-"@ =~= seq!['-']);
}

/// To append a numeral leaves what stands before it as it is.
pub proof fn lemma_appended(s: &mut String, n: u128, h: u32, b: u8, i: i16)
    ensures
        call_ensures(push_decimal, (s, n), ()) ==> final(s)@ == old(s)@ + decimal(n as nat),
        call_ensures(push_hexadecimal, (s, h), ()) ==> final(s)@ == old(s)@ + hexadecimal(h as nat),
        call_ensures(push_hex_byte, (s, b), ()) ==> final(s)@ == old(s)@ + hex_byte(b),
        call_ensures(push_hex_word, (s, h), ()) ==> final(s)@ == old(s)@ + hex_word(h),
        call_ensures(push_signed, (s, i), ()) ==> final(s)@ == old(s)@ + signed(i as int),
{
}

/// A line about a connection is its number after a number sign, a space, and the message as it is.
pub proof fn lemma_conn_line(conn_id: u32, message: &str, s: String)
    requires
        call_ensures(conn_line, (conn_id, message), s),
    ensures
        call_requires(conn_line, (conn_id, message)),
        s@ == seq!['#'] + decimal(conn_id as nat) + seq![' '] + message@,
{
    reveal_strlit("#");
    reveal_strlit(" ");
    assert("#"@ =~= seq!['#']);
    assert(" "@ =~= seq![' ']);
}

/// A line of the log is the time in brackets, a space, the message as it is, and an end of line.
pub proof fn lemma_log_line(time: &str, message: &str, s: String)
    requires
        call_ensures(log_line, (time, message), s),
    ensures
        call_requires(log_line, (time, message)),
        s@ == seq!['['] + time@ + seq![']', ' '] + message@ + seq!['\n'],
{
    reveal_strlit("[");
    reveal_strlit("] ");
    reveal_strlit("\n");
    assert("["@ =~= seq!['[']);
    assert("] "@ =~= seq![']', ' ']);
    assert("\n"@ =~= seq!['\n']);
}

} // verus!
