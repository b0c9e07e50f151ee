//! IPv4 addresses in dotted decimal notation.

use vstd::prelude::*;
use vstd::utf8::is_ascii_chars;

use crate::text::{decimal, is_digit, lemma_decimal, lemma_decimal_injective, push_decimal};

verus! {

/// An IPv4 address.
#[derive(Clone, Copy, Debug, PartialEq, Eq, Structural)]
pub struct Ipv4Addr {
    pub a: u8,
    pub b: u8,
    pub c: u8,
    pub d: u8,
}

impl Ipv4Addr {
    /// The dotted decimal notation: four numerals without leading zeros.
    pub open spec fn dotted(self) -> Seq<char> {
        decimal(self.a as nat) + seq!['.'] + decimal(self.b as nat) + seq!['.'] + decimal(
            self.c as nat,
        ) + seq!['.'] + decimal(self.d as nat)
    }

    /// The address as a number, the first octet most significant.
    pub open spec fn number(self) -> nat {
        (self.a * 0x100_0000 + self.b * 0x1_0000 + self.c * 0x100 + self.d) as nat
    }

    /// The address as a 32-bit number, the first octet most significant.
    pub fn to_u32(&self) -> (n: u32)
        ensures
            n == self.number(),
    {
        self.a as u32 * 0x100_0000 + self.b as u32 * 0x1_0000 + self.c as u32 * 0x100 + self.d as u32
    }

    /// The dotted decimal notation of the address.
    pub fn to_text(&self) -> (s: String)
        ensures
            s@ == self.dotted(),
    {
        proof {
            reveal_strlit(".");
            assert("."@ =~= seq!['.']);
        }
        let mut s = String::new();
        push_decimal(&mut s, self.a as u128);
        s.append(".");
        push_decimal(&mut s, self.b as u128);
        s.append(".");
        push_decimal(&mut s, self.c as u128);
        s.append(".");
        push_decimal(&mut s, self.d as u128);
        proof {
            assert(s@ =~= self.dotted());
        }
        s
    }
}

/// Whether the longest run of digits of `s` that starts at `from` is the numeral of the octet `v`
/// and ends at `to`.
spec fn octet_at(s: Seq<char>, from: int, v: u8, to: int) -> bool {
    &&& 0 <= from <= to <= s.len()
    &&& s.subrange(from, to) == decimal(v as nat)
    &&& to == s.len() || !is_digit(s[to])
}

/// The run of digits that starts at `from` denotes at most one octet.
proof fn lemma_octet_unique(s: Seq<char>, from: int, v: u8, to: int, w: u8, end: int)
    requires
        octet_at(s, from, v, to),
        octet_at(s, from, w, end),
    ensures
        v == w,
        to == end,
{
    lemma_decimal(v as nat);
    lemma_decimal(w as nat);
    let p = s.subrange(from, to);
    let q = s.subrange(from, end);
    if to < end {
        assert(is_digit(q[to - from]));
        assert(q[to - from] == s[to]);
    } else if end < to {
        assert(is_digit(p[end - from]));
        assert(p[end - from] == s[end]);
    }
    lemma_decimal_injective(v as nat, w as nat);
}

/// The numerals of numbers below a thousand, digit by digit.
proof fn lemma_short_decimal(n: nat)
    requires
        n < 1000,
    ensures
        n < 10 ==> decimal(n) =~= seq![(48 + n) as char],
        10 <= n < 100 ==> decimal(n) =~= seq![(48 + n / 10) as char, (48 + n % 10) as char],
        100 <= n ==> decimal(n) =~= seq![
            (48 + n / 100) as char,
            (48 + n / 10 % 10) as char,
            (48 + n % 10) as char,
        ],
{
    reveal_with_fuel(decimal, 3);
}

/// Reads the octet that starts at `from`: the whole run of digits there, at most three of them,
/// without a leading zero, with a value of at most 255.
fn read_octet(bytes: &[u8], from: usize, Ghost(s): Ghost<Seq<char>>) -> (r: Option<(u8, usize)>)
    requires
        from <= bytes@.len(),
        bytes@.len() == s.len(),
        forall|i: int| 0 <= i < s.len() ==> bytes@[i] as int == #[trigger] s[i] as int,
    ensures
        r matches Some((v, to)) ==> octet_at(s, from as int, v, to as int),
        r is None ==> forall|v: u8, to: int| !octet_at(s, from as int, v, to),
{
    let mut to: usize = from;
    let mut value: u16 = 0;
    while to < bytes.len() && to - from < 4 && 48 <= bytes[to] && bytes[to] <= 57
        invariant
            from <= to <= bytes@.len(),
            to - from <= 4,
            bytes@.len() == s.len(),
            forall|i: int| 0 <= i < s.len() ==> bytes@[i] as int == #[trigger] s[i] as int,
            forall|i: int| from <= i < to ==> is_digit(#[trigger] s[i]),
            to - from == 0 ==> value == 0,
            to - from == 1 ==> value == bytes@[from as int] - 48 && value < 10,
            to - from == 2 ==> value == (bytes@[from as int] - 48) * 10 + (bytes@[from + 1] - 48)
                && value < 100,
            to - from == 3 ==> value == (bytes@[from as int] - 48) * 100 + (bytes@[from + 1] - 48)
                * 10 + (bytes@[from + 2] - 48) && value < 1000,
            value < 10000,
        decreases bytes@.len() - to,
    {
        proof {
            assert(bytes@[to as int] as int == s[to as int] as int);
        }
        value = value * 10 + (bytes[to] - 48) as u16;
        to = to + 1;
    }
    let count: usize = to - from;
    if count == 0 || count > 3 || value > 255 || (count > 1 && bytes[from] == 48) {
        proof {
            assert forall|v: u8, end: int| !octet_at(s, from as int, v, end) by {
                if octet_at(s, from as int, v, end) {
                    lemma_decimal(v as nat);
                    lemma_short_decimal(v as nat);
                    let p = s.subrange(from as int, end);
                    assert(p.len() <= 3);
                    assert forall|i: int| from <= i < end implies is_digit(#[trigger] s[i]) by {
                        assert(p[i - from] == s[i]);
                    }
                    assert(p[0] == s[from as int]);
                    assert(end == to);
                    assert(forall|i: int| 0 <= i < p.len() ==> p[i] == s[from + i]);
                }
            }
        }
        None
    } else {
        proof {
            lemma_short_decimal(value as nat);
            assert(bytes@[from as int] as int == s[from as int] as int);
            assert(count > 1 ==> bytes@[from + 1] as int == s[from + 1] as int);
            assert(count > 2 ==> bytes@[from + 2] as int == s[from + 2] as int);
            assert(s.subrange(from as int, to as int) =~= decimal(value as nat));
        }
        Some((value as u8, to))
    }
}

/// Where the octets of an address stand in its dotted decimal notation `s`: the first three end at
/// `p`, `q` and `r`.
spec fn spelled(s: Seq<char>, ip: Ipv4Addr, p: int, q: int, r: int) -> bool {
    &&& octet_at(s, 0, ip.a, p)
    &&& p < s.len() && s[p] == '.'
    &&& octet_at(s, p + 1, ip.b, q)
    &&& q < s.len() && s[q] == '.'
    &&& octet_at(s, q + 1, ip.c, r)
    &&& r < s.len() && s[r] == '.'
    &&& octet_at(s, r + 1, ip.d, s.len() as int)
}

/// The dotted decimal notation is made of digits and points.
pub proof fn lemma_dotted_chars(ip: Ipv4Addr)
    ensures
        forall|i: int|
            0 <= i < ip.dotted().len() ==> is_digit(#[trigger] ip.dotted()[i]) || ip.dotted()[i]
                == '.',
{
    let s = ip.dotted();
    let (a, b, c, d) = (
        decimal(ip.a as nat),
        decimal(ip.b as nat),
        decimal(ip.c as nat),
        decimal(ip.d as nat),
    );
    lemma_decimal(ip.a as nat);
    lemma_decimal(ip.b as nat);
    lemma_decimal(ip.c as nat);
    lemma_decimal(ip.d as nat);
    let p = a.len() as int;
    let q = p + 1 + b.len();
    let r = q + 1 + c.len();
    assert forall|i: int| 0 <= i < s.len() implies is_digit(#[trigger] s[i]) || s[i] == '.' by {
        if i < p {
            assert(s[i] == a[i]);
        } else if p < i < q {
            assert(s[i] == b[i - p - 1]);
        } else if q < i < r {
            assert(s[i] == c[i - q - 1]);
        } else if r < i {
            assert(s[i] == d[i - r - 1]);
        }
    }
}

/// The dotted decimal notation of an address spells it.
proof fn lemma_dotted_spelled(ip: Ipv4Addr) -> (ends: (int, int, int))
    ensures
        spelled(ip.dotted(), ip, ends.0, ends.1, ends.2),
{
    let s = ip.dotted();
    let (a, b, c, d) = (
        decimal(ip.a as nat),
        decimal(ip.b as nat),
        decimal(ip.c as nat),
        decimal(ip.d as nat),
    );
    lemma_decimal(ip.a as nat);
    lemma_decimal(ip.b as nat);
    lemma_decimal(ip.c as nat);
    lemma_decimal(ip.d as nat);
    let p = a.len() as int;
    let q = p + 1 + b.len();
    let r = q + 1 + c.len();
    assert(s.len() == r + 1 + d.len());
    assert(s.subrange(0, p) =~= a);
    assert(s.subrange(p + 1, q) =~= b);
    assert(s.subrange(q + 1, r) =~= c);
    assert(s.subrange(r + 1, s.len() as int) =~= d);
    (p, q, r)
}

/// A text that spells an address is its dotted decimal notation.
proof fn lemma_spelled_dotted(s: Seq<char>, ip: Ipv4Addr, p: int, q: int, r: int)
    requires
        spelled(s, ip, p, q, r),
    ensures
        s == ip.dotted(),
{
    let n = s.len() as int;
    assert(s =~= s.subrange(0, p) + seq!['.'] + s.subrange(p + 1, q) + seq!['.'] + s.subrange(
        q + 1,
        r,
    ) + seq!['.'] + s.subrange(r + 1, n));
}

/// Different addresses have different dotted decimal notations.
pub proof fn lemma_dotted_injective(x: Ipv4Addr, y: Ipv4Addr)
    requires
        x.dotted() == y.dotted(),
    ensures
        x == y,
{
    let s = x.dotted();
    let (p, q, r) = lemma_dotted_spelled(x);
    let (i, j, k) = lemma_dotted_spelled(y);
    lemma_octet_unique(s, 0, x.a, p, y.a, i);
    lemma_octet_unique(s, p + 1, x.b, q, y.b, j);
    lemma_octet_unique(s, q + 1, x.c, r, y.c, k);
    lemma_octet_unique(s, r + 1, x.d, s.len() as int, y.d, s.len() as int);
}

/// Reads an address in dotted decimal notation; any other text gives `None`.
pub fn parse_ipv4(text: &str) -> (r: Option<Ipv4Addr>)
    ensures
        r matches Some(ip) ==> text@ == ip.dotted(),
        r is None ==> forall|other: Ipv4Addr| text@ != #[trigger] other.dotted(),
{
    let ghost s = text@;
    if !text.is_ascii() {
        proof {
            assert forall|ip: Ipv4Addr| s != #[trigger] ip.dotted() by {
                lemma_dotted_chars(ip);
                if s == ip.dotted() {
                    assert(is_ascii_chars(s));
                }
            }
        }
        return None;
    }
    let bytes = text.as_bytes();
    proof {
        assert forall|i: int| 0 <= i < s.len() implies bytes@[i] as int == #[trigger] s[i] as int by {
            assert(bytes@[i] == s[i] as u8);
            assert('\0' <= s[i] <= '\u{7f}');
        }
        assert forall|ip: Ipv4Addr| s == #[trigger] ip.dotted() implies exists|p: int, q: int, r: int|
            spelled(s, ip, p, q, r) by {
            let (p, q, r) = lemma_dotted_spelled(ip);
            assert(spelled(s, ip, p, q, r));
        }
        assert forall|from: int, v: u8, to: int, w: u8, end: int|
            #[trigger] octet_at(s, from, v, to) && #[trigger] octet_at(s, from, w, end) implies v == w
            && to == end by {
            lemma_octet_unique(s, from, v, to, w, end);
        }
    }
    let (a, p) = match read_octet(bytes, 0, Ghost(s)) {
        Some(octet) => octet,
        None => return None,
    };
    if p >= bytes.len() || bytes[p] != 46 {
        return None;
    }
    let (b, q) = match read_octet(bytes, p + 1, Ghost(s)) {
        Some(octet) => octet,
        None => return None,
    };
    if q >= bytes.len() || bytes[q] != 46 {
        return None;
    }
    let (c, r) = match read_octet(bytes, q + 1, Ghost(s)) {
        Some(octet) => octet,
        None => return None,
    };
    if r >= bytes.len() || bytes[r] != 46 {
        return None;
    }
    let (d, end) = match read_octet(bytes, r + 1, Ghost(s)) {
        Some(octet) => octet,
        None => return None,
    };
    if end != bytes.len() {
        return None;
    }
    let ip = Ipv4Addr { a, b, c, d };
    proof {
        lemma_spelled_dotted(s, ip, p as int, q as int, r as int);
    }
    Some(ip)
}

/// The notation of an address is its four octets in decimal, in their order, with points between
/// them.
pub proof fn lemma_dotted(ip: Ipv4Addr, s: String)
    requires
        call_ensures(Ipv4Addr::to_text, (&ip,), s),
    ensures
        call_requires(Ipv4Addr::to_text, (&ip,)),
        s@ == ip.dotted(),
        ip.dotted() == decimal(ip.a as nat) + "."@ + decimal(ip.b as nat) + "."@ + decimal(
            ip.c as nat,
        ) + "."@ + decimal(ip.d as nat),
{
    reveal_strlit(".");
    assert("."@ =~= seq!['.']);
}

/// A text is read as an address exactly if it is the notation of that address.
pub proof fn lemma_ipv4_is_read(text: &str, ip: Ipv4Addr, r: Option<Ipv4Addr>)
    requires
        call_ensures(parse_ipv4, (text,), r),
    ensures
        r == Some(ip) <==> text@ == ip.dotted(),
        call_requires(parse_ipv4, (text,)),
{
    if text@ == ip.dotted() {
        lemma_dotted_injective(ip, r->0);
    }
}

/// The number of an address has the octets as its digits to the base 256.
pub proof fn lemma_number(ip: Ipv4Addr, n: u32)
    requires
        call_ensures(Ipv4Addr::to_u32, (&ip,), n),
    ensures
        call_requires(Ipv4Addr::to_u32, (&ip,)),
        n == ((ip.a * 256 + ip.b) * 256 + ip.c) * 256 + ip.d,
        ip.number() == n,
{
}

} // verus!
