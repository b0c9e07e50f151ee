//! The canonical text of an IPv6 address (RFC 5952).

use vstd::prelude::*;

use crate::ipv4::{lemma_dotted_chars, lemma_dotted_injective, Ipv4Addr};
use crate::text::{
    decimal, hexadecimal, hexadecimal_value, is_hex_digit, lemma_hexadecimal, push_hexadecimal,
};

verus! {

/// Whether `len` segments from `start` on are zero.
pub open spec fn zero_run(s: Seq<u16>, start: int, len: int) -> bool {
    &&& 0 <= start
    &&& 0 <= len
    &&& start + len <= s.len()
    &&& forall|i: int| start <= i < start + len ==> #[trigger] s[i] == 0
}

/// Whether the run of `len` zero segments from `start` on is the longest one, and the first of
/// that length.
pub open spec fn longest_zero_run(s: Seq<u16>, start: int, len: int) -> bool {
    &&& zero_run(s, start, len)
    &&& forall|a: int, l: int|
        #[trigger] zero_run(s, a, l) ==> l < len || (l == len && start <= a)
}

/// Segments in hexadecimal, with colons between them.
pub open spec fn joined(s: Seq<u16>) -> Seq<char>
    decreases s.len(),
{
    if s.len() == 0 {
        seq![]
    } else if s.len() == 1 {
        hexadecimal(s[0] as nat)
    } else {
        joined(s.drop_last()) + ":"@ + hexadecimal(s.last() as nat)
    }
}

/// Whether the segments are those of an IPv4-mapped address.
pub open spec fn is_mapped(s: Seq<u16>) -> bool {
    s.subrange(0, 6) == seq![0u16, 0u16, 0u16, 0u16, 0u16, 0xffffu16]
}

/// The IPv4 address in the last two segments.
pub open spec fn mapped_address(s: Seq<u16>) -> Ipv4Addr {
    Ipv4Addr {
        a: (s[6] / 256) as u8,
        b: (s[6] % 256) as u8,
        c: (s[7] / 256) as u8,
        d: (s[7] % 256) as u8,
    }
}

/// The canonical text of an address: an IPv4-mapped one ends in dotted decimal notation; in any
/// other the longest run of at least two zero segments, the first of several, is left out between
/// two colons.
pub open spec fn ipv6_text(s: Seq<u16>) -> Seq<char> {
    if is_mapped(s) {
        "::ffff:"@ + mapped_address(s).dotted()
    } else if exists|start: int, len: int| len >= 2 && #[trigger] longest_zero_run(s, start, len) {
        let (start, len) = choose|start: int, len: int|
            len >= 2 && #[trigger] longest_zero_run(s, start, len);
        joined(s.subrange(0, start)) + "::"@ + joined(s.subrange(start + len, s.len() as int))
    } else {
        joined(s)
    }
}

/// There is only one longest run.
proof fn lemma_longest_unique(s: Seq<u16>, a: int, l: int, b: int, m: int)
    requires
        longest_zero_run(s, a, l),
        longest_zero_run(s, b, m),
    ensures
        a == b,
        l == m,
{
}

/// Appends segments number `from` to `to`, with colons between them.
fn push_joined(text: &mut String, s: &[u16; 8], from: usize, to: usize)
    requires
        from <= to <= 8,
    ensures
        final(text)@ == old(text)@ + joined(s@.subrange(from as int, to as int)),
{
    let ghost before = text@;
    let mut i: usize = from;
    proof {
        assert(s@.subrange(from as int, from as int) =~= seq![]);
        assert(text@ =~= before + joined(s@.subrange(from as int, i as int)));
    }
    while i < to
        invariant
            from <= i <= to <= 8,
            text@ == before + joined(s@.subrange(from as int, i as int)),
        decreases to - i,
    {
        let ghost part = s@.subrange(from as int, i + 1);
        proof {
            assert(part.drop_last() =~= s@.subrange(from as int, i as int));
        }
        if i > from {
            text.append(":");
        }
        push_hexadecimal(text, s[i] as u32);
        i = i + 1;
        proof {
            assert(text@ =~= before + joined(part));
        }
    }
}

/// The longest run of zero segments, the first of several: where it starts and how long it is.
fn find_longest_zero_run(s: &[u16; 8]) -> (r: (usize, usize))
    ensures
        r.1 > 0 ==> longest_zero_run(s@, r.0 as int, r.1 as int),
        r.1 == 0 ==> forall|a: int, l: int| #[trigger] zero_run(s@, a, l) ==> l == 0,
{
    let mut start: usize = 0;
    let mut len: usize = 0;
    let mut current: usize = 0;
    let mut i: usize = 0;
    while i < 8
        invariant
            i <= 8,
            current <= i,
            start + len <= i,
            zero_run(s@, start as int, len as int),
            zero_run(s@, i - current, current as int),
            i == current || s@[i - current - 1] != 0,
            forall|a: int, l: int|
                #[trigger] zero_run(s@, a, l) && a + l <= i && l > 0 ==> l < len || (l == len
                    && start <= a),
        decreases 8 - i,
    {
        let ghost before = i - current;
        if s[i] == 0 {
            current = current + 1;
            if current > len {
                start = i + 1 - current;
                len = current;
            }
            proof {
                assert forall|a: int, l: int|
                    #[trigger] zero_run(s@, a, l) && a + l <= i + 1 && l > 0 implies l < len || (l
                    == len && start <= a) by {
                    if a + l == i + 1 && a < before {
                        assert(s@[before - 1] == 0);
                    }
                }
            }
        } else {
            proof {
                assert forall|a: int, l: int|
                    #[trigger] zero_run(s@, a, l) && a + l <= i + 1 && l > 0 implies a + l <= i by {
                    if a + l == i + 1 {
                        assert(s@[i as int] == 0);
                    }
                }
            }
            current = 0;
        }
        i = i + 1;
    }
    (start, len)
}

/// The canonical text of an IPv6 address, given by its eight segments.
pub fn format_ipv6(s: &[u16; 8]) -> (text: String)
    ensures
        text@ == ipv6_text(s@),
{
    let mut text = String::new();
    if s[0] == 0 && s[1] == 0 && s[2] == 0 && s[3] == 0 && s[4] == 0 && s[5] == 0xffff {
        proof {
            assert(s@.subrange(0, 6) =~= seq![0u16, 0u16, 0u16, 0u16, 0u16, 0xffffu16]);
        }
        text.append("::ffff:");
        let ip = Ipv4Addr {
            a: (s[6] / 256) as u8,
            b: (s[6] % 256) as u8,
            c: (s[7] / 256) as u8,
            d: (s[7] % 256) as u8,
        };
        text.append(ip.to_text().as_str());
        proof {
            assert(text@ =~= ipv6_text(s@));
        }
        return text;
    }
    proof {
        if is_mapped(s@) {
            let head = s@.subrange(0, 6);
            assert(head[0] == s@[0] && head[1] == s@[1] && head[2] == s@[2] && head[3] == s@[3]
                && head[4] == s@[4] && head[5] == s@[5]);
        }
    }
    let (start, len) = find_longest_zero_run(s);
    if len > 1 {
        push_joined(&mut text, s, 0, start);
        text.append("::");
        push_joined(&mut text, s, start + len, 8);
        proof {
            let (a, l) = choose|a: int, l: int| l >= 2 && #[trigger] longest_zero_run(s@, a, l);
            lemma_longest_unique(s@, start as int, len as int, a, l);
            assert(text@ =~= ipv6_text(s@));
        }
    } else {
        push_joined(&mut text, s, 0, 8);
        proof {
            assert(s@.subrange(0, 8) =~= s@);
            if exists|a: int, l: int| l >= 2 && #[trigger] longest_zero_run(s@, a, l) {
                let (a, l) = choose|a: int, l: int| l >= 2 && #[trigger] longest_zero_run(s@, a, l);
                assert(zero_run(s@, a, l));
            }
            assert(text@ =~= ipv6_text(s@));
        }
    }
    text
}

/// The canonical text of an IPv6 address is never an IPv4 address.
pub proof fn lemma_ipv6_is_not_ipv4(s: Seq<u16>, ip: Ipv4Addr)
    requires
        s.len() == 8,
    ensures
        ipv6_text(s) != ip.dotted(),
{
    reveal_strlit("::ffff:");
    reveal_strlit("::");
    reveal_strlit(":");
    let t = ipv6_text(s);
    let at = if is_mapped(s) {
        0
    } else if exists|start: int, len: int| len >= 2 && #[trigger] longest_zero_run(s, start, len) {
        let (start, len) = choose|start: int, len: int|
            len >= 2 && #[trigger] longest_zero_run(s, start, len);
        joined(s.subrange(0, start)).len() as int
    } else {
        joined(s.drop_last()).len() as int
    };
    assert(t[at] == ':');
    if t == ip.dotted() {
        lemma_dotted_chars(ip);
        assert(ip.dotted()[at] != ':');
    }
}

/// Joined segments are hexadecimal digits and single colons between them.
proof fn lemma_joined_chars(s: Seq<u16>)
    ensures
        s.len() == 0 <==> joined(s).len() == 0,
        s.len() > 0 ==> is_hex_digit(joined(s)[0]) && is_hex_digit(joined(s).last()),
        forall|i: int|
            0 < i < joined(s).len() ==> is_hex_digit(#[trigger] joined(s)[i]) || is_hex_digit(
                joined(s)[i - 1],
            ),
    decreases s.len(),
{
    reveal_strlit(":");
    if s.len() == 1 {
        lemma_hexadecimal(s[0] as nat);
    } else if s.len() > 1 {
        let (x, h) = (joined(s.drop_last()), hexadecimal(s.last() as nat));
        lemma_joined_chars(s.drop_last());
        lemma_hexadecimal(s.last() as nat);
        let t = joined(s);
        assert(t.len() == x.len() + 1 + h.len());
        assert forall|i: int| 0 < i < t.len() implies is_hex_digit(#[trigger] t[i]) || is_hex_digit(
            t[i - 1],
        ) by {
            if i < x.len() {
                assert(t[i] == x[i]);
                assert(t[i - 1] == x[i - 1]);
            } else if i == x.len() {
                assert(t[i - 1] == x.last());
            } else {
                assert(t[i] == h[i - x.len() - 1]);
            }
        }
        assert(t[0] == x[0]);
        assert(t.last() == h.last());
    }
}

/// The pieces of a text between its colons.
pub open spec fn pieces(t: Seq<char>) -> Seq<Seq<char>>
    decreases t.len(),
{
    if t.len() == 0 {
        seq![seq![]]
    } else if t.last() == ':' {
        pieces(t.drop_last()).push(seq![])
    } else {
        let before = pieces(t.drop_last());
        before.drop_last().push(before.last().push(t.last()))
    }
}

/// Whether a piece is a segment: one to four hexadecimal digits.
pub open spec fn is_segment(p: Seq<char>) -> bool {
    1 <= p.len() <= 4 && forall|i: int| 0 <= i < p.len() ==> is_hex_digit(#[trigger] p[i])
}

/// The segments that the pieces denote, if all of them are segments.
pub open spec fn segments_in(p: Seq<Seq<char>>) -> Option<Seq<u16>> {
    if forall|i: int| 0 <= i < p.len() ==> is_segment(#[trigger] p[i]) {
        Some(Seq::new(p.len(), |i: int| hexadecimal_value(p[i]) as u16))
    } else {
        None
    }
}

/// The segments of a text in which colons separate them; an empty text has none.
pub open spec fn read_segments(t: Seq<char>) -> Option<Seq<u16>> {
    if t.len() == 0 {
        Some(seq![])
    } else {
        segments_in(pieces(t))
    }
}

/// The segments of a text in which colons separate them, and in which an IPv4 address may stand for
/// the last two.
pub open spec fn read_final_segments(t: Seq<char>) -> Option<Seq<u16>> {
    if exists|ip: Ipv4Addr| #[trigger] ip.dotted() == pieces(t).last() {
        let ip = choose|ip: Ipv4Addr| #[trigger] ip.dotted() == pieces(t).last();
        match segments_in(pieces(t).drop_last()) {
            Some(s) => Some(
                s + seq![(0x100 * ip.a + ip.b) as u16, (0x100 * ip.c + ip.d) as u16],
            ),
            None => None,
        }
    } else {
        read_segments(t)
    }
}

/// Whether two colons stand side by side at `i`, and nowhere before.
pub open spec fn first_double_colon(t: Seq<char>, i: int) -> bool {
    &&& 0 <= i < t.len() - 1
    &&& t[i] == ':' && t[i + 1] == ':'
    &&& forall|j: int| 0 <= j < i ==> !(#[trigger] t[j] == ':' && t[j + 1] == ':')
}

/// The eight segments of the address that a text denotes (RFC 4291, section 2.2): eight segments
/// between colons, or fewer with two colons in the place of the zero segments that are missing. An
/// IPv4 address may stand for the last two segments.
pub open spec fn ipv6_of_text(t: Seq<char>) -> Option<Seq<u16>> {
    if exists|i: int| first_double_colon(t, i) {
        let i = choose|i: int| first_double_colon(t, i);
        match (
            read_segments(t.subrange(0, i)),
            read_final_segments(t.subrange(i + 2, t.len() as int)),
        ) {
            (Some(a), Some(b)) if a.len() + b.len() < 8 => Some(
                a + Seq::new((8 - a.len() - b.len()) as nat, |j: int| 0u16) + b,
            ),
            _ => None,
        }
    } else {
        match read_final_segments(t) {
            Some(s) if s.len() == 8 => Some(s),
            _ => None,
        }
    }
}

/// A text without colons is one piece.
proof fn lemma_one_piece(h: Seq<char>)
    requires
        forall|i: int| 0 <= i < h.len() ==> #[trigger] h[i] != ':',
    ensures
        pieces(h) == seq![h],
    decreases h.len(),
{
    if h.len() > 0 {
        lemma_one_piece(h.drop_last());
        assert(h.drop_last().push(h.last()) =~= h);
        assert(pieces(h) =~= seq![h]);
    } else {
        assert(h =~= seq![]);
    }
}

/// What follows the last colon is the last piece.
proof fn lemma_last_piece(x: Seq<char>, h: Seq<char>)
    requires
        forall|i: int| 0 <= i < h.len() ==> #[trigger] h[i] != ':',
    ensures
        pieces(x + ":"@ + h) == pieces(x).push(h),
    decreases h.len(),
{
    reveal_strlit(":");
    let t = x + ":"@ + h;
    if h.len() > 0 {
        lemma_last_piece(x, h.drop_last());
        assert(t.drop_last() =~= x + ":"@ + h.drop_last());
        assert(h.drop_last().push(h.last()) =~= h);
        assert(pieces(t) =~= pieces(x).push(h));
    } else {
        assert(t.drop_last() =~= x);
        assert(h =~= seq![]);
    }
}

/// The numeral of a segment is a segment, and denotes it.
proof fn lemma_segment(n: u16)
    ensures
        is_segment(hexadecimal(n as nat)),
        hexadecimal_value(hexadecimal(n as nat)) == n,
        forall|i: int|
            0 <= i < hexadecimal(n as nat).len() ==> #[trigger] hexadecimal(n as nat)[i] != ':',
{
    lemma_hexadecimal(n as nat);
    reveal_with_fuel(hexadecimal, 4);
}

/// Segments that were joined are the pieces of the text, one by one.
proof fn lemma_joined_pieces(s: Seq<u16>)
    requires
        s.len() > 0,
    ensures
        pieces(joined(s)) == Seq::new(s.len(), |i: int| hexadecimal(s[i] as nat)),
    decreases s.len(),
{
    let expected = Seq::new(s.len(), |i: int| hexadecimal(s[i] as nat));
    lemma_segment(s.last());
    if s.len() == 1 {
        lemma_one_piece(joined(s));
        assert(seq![joined(s)] =~= expected);
    } else {
        lemma_joined_pieces(s.drop_last());
        lemma_last_piece(joined(s.drop_last()), hexadecimal(s.last() as nat));
        assert(pieces(joined(s)) =~= expected);
    }
}

/// The numerals of segments denote them.
proof fn lemma_segments_in(s: Seq<u16>)
    ensures
        segments_in(Seq::new(s.len(), |i: int| hexadecimal(s[i] as nat))) == Some(s),
{
    let p = Seq::new(s.len(), |i: int| hexadecimal(s[i] as nat));
    assert forall|i: int| 0 <= i < p.len() implies is_segment(#[trigger] p[i])
        && hexadecimal_value(p[i]) == s[i] by {
        lemma_segment(s[i]);
    }
    assert(segments_in(p)->0 =~= s);
}

/// Segments that were joined are read back.
proof fn lemma_joined_reads_back(s: Seq<u16>)
    ensures
        read_segments(joined(s)) == Some(s),
        read_final_segments(joined(s)) == Some(s),
{
    lemma_joined_chars(s);
    if s.len() > 0 {
        lemma_joined_pieces(s);
        lemma_segments_in(s);
    } else {
        assert(s =~= seq![]);
    }
    // no piece is an IPv4 address
    let last = pieces(joined(s)).last();
    assert forall|ip: Ipv4Addr| #[trigger] ip.dotted() != last by {
        let n = decimal(ip.a as nat).len() as int;
        assert(ip.dotted()[n] == '.');
        if s.len() > 0 {
            lemma_segment(s.last());
            assert(last == hexadecimal(s.last() as nat));
            if ip.dotted() == last {
                assert(is_hex_digit(last[n]));
            }
        } else {
            assert(last.len() == 0);
        }
    }
}

/// The two colons of a compressed text stand where the first part ends.
proof fn lemma_compressed(a: Seq<u16>, rest: Seq<char>)
    ensures
        first_double_colon(joined(a) + "::"@ + rest, joined(a).len() as int),
{
    reveal_strlit("::");
    lemma_joined_chars(a);
    let (t, n) = (joined(a) + "::"@ + rest, joined(a).len() as int);
    assert forall|j: int| 0 <= j < n implies !(#[trigger] t[j] == ':' && t[j + 1] == ':') by {
        assert(t[j] == joined(a)[j]);
        if j + 1 < n {
            assert(t[j + 1] == joined(a)[j + 1]);
        }
    }
}

/// A compressed text is read part by part.
proof fn lemma_compressed_reads_back(a: Seq<u16>, rest: Seq<char>, b: Seq<u16>)
    requires
        read_final_segments(rest) == Some(b),
        a.len() + b.len() < 8,
    ensures
        ipv6_of_text(joined(a) + "::"@ + rest) == Some(
            a + Seq::new((8 - a.len() - b.len()) as nat, |j: int| 0u16) + b,
        ),
{
    reveal_strlit("::");
    lemma_compressed(a, rest);
    lemma_joined_reads_back(a);
    let (t, n) = (joined(a) + "::"@ + rest, joined(a).len() as int);
    let i = choose|i: int| first_double_colon(t, i);
    if i < n {
        assert(!(t[i] == ':' && t[i + 1] == ':'));
    } else if n < i {
        assert(!(t[n] == ':' && t[n + 1] == ':'));
    }
    assert(t.subrange(0, n) =~= joined(a));
    assert(t.subrange(n + 2, t.len() as int) =~= rest);
}

/// The end of the text of a mapped address is read back.
proof fn lemma_mapped_reads_back(ip: Ipv4Addr)
    ensures
        read_final_segments("ffff:"@ + ip.dotted()) == Some(
            seq![0xffffu16, (0x100 * ip.a + ip.b) as u16, (0x100 * ip.c + ip.d) as u16],
        ),
{
    reveal_strlit("ffff:");
    reveal_strlit(":");
    reveal_with_fuel(hexadecimal, 4);
    let ffff = hexadecimal(0xffff);
    lemma_segment(0xffff);
    lemma_one_piece(ffff);
    lemma_dotted_chars(ip);
    assert("ffff:"@ =~= ffff + ":"@);
    let t = "ffff:"@ + ip.dotted();
    lemma_last_piece(ffff, ip.dotted());
    assert(pieces(t).last() == ip.dotted());
    assert(pieces(t).drop_last() =~= seq![ffff]);
    let other = choose|other: Ipv4Addr| #[trigger] other.dotted() == pieces(t).last();
    lemma_dotted_injective(ip, other);
    lemma_segments_in(seq![0xffffu16]);
    assert(seq![ffff] =~= Seq::new(1, |i: int| hexadecimal(seq![0xffffu16][i] as nat)));
    assert(read_final_segments(t)->0 =~= seq![
        0xffffu16,
        (0x100 * ip.a + ip.b) as u16,
        (0x100 * ip.c + ip.d) as u16,
    ]);
}

/// The canonical text of an address denotes it.
pub proof fn lemma_ipv6_text_reads_back(s: Seq<u16>)
    requires
        s.len() == 8,
    ensures
        ipv6_of_text(ipv6_text(s)) == Some(s),
{
    reveal_strlit("::ffff:");
    reveal_strlit("ffff:");
    reveal_strlit("::");
    if is_mapped(s) {
        let ip = mapped_address(s);
        let b = seq![0xffffu16, (0x100 * ip.a + ip.b) as u16, (0x100 * ip.c + ip.d) as u16];
        lemma_mapped_reads_back(ip);
        lemma_compressed_reads_back(seq![], "ffff:"@ + ip.dotted(), b);
        assert(ipv6_text(s) =~= joined(seq![]) + "::"@ + ("ffff:"@ + ip.dotted()));
        assert forall|i: int| 0 <= i < 6 implies s[i] == if i < 5 { 0u16 } else { 0xffffu16 } by {
            assert(s.subrange(0, 6)[i] == s[i]);
        }
        assert(s[6] == 0x100 * ip.a + ip.b);
        assert(s[7] == 0x100 * ip.c + ip.d);
        assert(s =~= seq![] + Seq::new(5, |j: int| 0u16) + b);
    } else if exists|start: int, len: int| len >= 2 && #[trigger] longest_zero_run(s, start, len) {
        let (start, len) = choose|start: int, len: int|
            len >= 2 && #[trigger] longest_zero_run(s, start, len);
        let (a, b) = (s.subrange(0, start), s.subrange(start + len, 8));
        lemma_joined_reads_back(b);
        lemma_compressed_reads_back(a, joined(b), b);
        assert(s =~= a + Seq::new((8 - a.len() - b.len()) as nat, |j: int| 0u16) + b);
    } else {
        lemma_joined_chars(s);
        lemma_joined_reads_back(s);
        let t = joined(s);
        assert forall|i: int| !first_double_colon(t, i) by {
            if 0 <= i < t.len() - 1 {
                assert(is_hex_digit(t[i + 1]) || is_hex_digit(t[i]));
            }
        }
    }
}

/// Different addresses have different canonical texts.
pub proof fn lemma_ipv6_text_injective(s: Seq<u16>, u: Seq<u16>)
    requires
        s.len() == 8,
        u.len() == 8,
        ipv6_text(s) == ipv6_text(u),
    ensures
        s == u,
{
    lemma_ipv6_text_reads_back(s);
    lemma_ipv6_text_reads_back(u);
}

/// Segments are joined one by one, each in hexadecimal without leading zeros, with one colon
/// between neighbours.
pub proof fn lemma_joined(s: Seq<u16>, x: u16)
    ensures
        joined(Seq::<u16>::empty()) == Seq::<char>::empty(),
        joined(seq![x]) == hexadecimal(x as nat),
        s.len() > 0 ==> joined(s.push(x)) == joined(s) + seq![':'] + hexadecimal(x as nat),
{
    reveal_strlit(":");
    assert(":"@ =~= seq![':']);
    assert(s.push(x).drop_last() =~= s);
}

/// Whether all of the `len` segments from `from` on are zero.
pub open spec fn all_zero(s: [u16; 8], from: int, len: int) -> bool {
    forall|i: int| from <= i < from + len ==> #[trigger] s@[i] == 0
}

/// An address whose first five segments are zero and whose sixth has all bits set is shown as
/// `::ffff:` and the notation of the IPv4 address in its last two segments.
pub proof fn lemma_mapped_text(s: [u16; 8], text: String)
    requires
        call_ensures(format_ipv6, (&s,), text),
        all_zero(s, 0, 5),
        s@[5] == 0xffff,
    ensures
        call_requires(format_ipv6, (&s,)),
        text@ == "::ffff:"@ + (Ipv4Addr {
            a: (s@[6] / 256) as u8,
            b: (s@[6] % 256) as u8,
            c: (s@[7] / 256) as u8,
            d: (s@[7] % 256) as u8,
        }).dotted(),
{
    assert(s@.subrange(0, 6) =~= seq![0u16, 0u16, 0u16, 0u16, 0u16, 0xffffu16]);
}

/// In any other address the longest run of zero segments is left out between two colons, if it has
/// two segments or more; of several that are as long, the first one is.
pub proof fn lemma_compressed_text(s: [u16; 8], text: String, start: int, len: int)
    requires
        call_ensures(format_ipv6, (&s,), text),
        !all_zero(s, 0, 5) || s@[5] != 0xffff,
        len >= 2,
        0 <= start <= start + len <= 8,
        all_zero(s, start, len),
        forall|a: int, l: int|
            0 <= a <= a + l <= 8 && #[trigger] all_zero(s, a, l) ==> l < len || (l == len && start
                <= a),
    ensures
        call_requires(format_ipv6, (&s,)),
        text@ == joined(s@.subrange(0, start)) + "::"@ + joined(s@.subrange(start + len, 8)),
{
    lemma_not_mapped(s);
    assert(zero_run(s@, start, len));
    assert forall|a: int, l: int| #[trigger] zero_run(s@, a, l) implies l < len || (l == len
        && start <= a) by {
        assert(all_zero(s, a, l));
    }
    assert(longest_zero_run(s@, start, len));
    let (a, l) = choose|a: int, l: int| l >= 2 && #[trigger] longest_zero_run(s@, a, l);
    lemma_longest_unique(s@, start, len, a, l);
}

/// Where no two zero segments are neighbours, every segment is shown.
pub proof fn lemma_full_text(s: [u16; 8], text: String)
    requires
        call_ensures(format_ipv6, (&s,), text),
        forall|i: int| 0 <= i < 7 ==> #[trigger] s@[i] != 0 || s@[i + 1] != 0,
    ensures
        call_requires(format_ipv6, (&s,)),
        text@ == joined(s@),
{
    assert(s@[0] != 0 || s@[1] != 0);
    lemma_not_mapped(s);
    if exists|a: int, l: int| l >= 2 && #[trigger] longest_zero_run(s@, a, l) {
        let (a, l) = choose|a: int, l: int| l >= 2 && #[trigger] longest_zero_run(s@, a, l);
        assert(s@[a] == 0 && s@[a + 1] == 0);
    }
}

/// An address is mapped only if its first five segments are zero and its sixth has all bits set.
proof fn lemma_not_mapped(s: [u16; 8])
    requires
        !all_zero(s, 0, 5) || s@[5] != 0xffff,
    ensures
        !is_mapped(s@),
{
    if is_mapped(s@) {
        let head = s@.subrange(0, 6);
        assert forall|i: int| 0 <= i < 5 implies #[trigger] s@[i] == 0 by {
            assert(head[i] == s@[i]);
        }
        assert(head[5] == s@[5]);
    }
}

} // verus!
