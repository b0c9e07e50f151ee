//! The first packet of Telegram's obfuscated transport ("obfuscated2").
//!
//! The packet has 64 bytes: eight random ones, a 32-byte AES key, a 16-byte counter block, and
//! eight bytes that are encrypted under that key. These hold a protocol tag and the number of the
//! data centre (DC).

use vstd::prelude::*;

use aes::Aes256;
use cipher::{KeyIvInit, StreamCipher};

verus! {

/// Protocol tag of the abridged transport.
pub const TAG_ABRIDGED: u32 = 0xefefefef;

/// Protocol tag of the intermediate transport.
pub const TAG_INTERMEDIATE: u32 = 0xeeeeeeee;

/// Protocol tag of the padded intermediate transport.
pub const TAG_PADDED_INTERMEDIATE: u32 = 0xdddddddd;

/// What the first packet tells.
#[derive(Clone, Copy, Debug, PartialEq, Eq, Structural)]
pub enum InitResult {
    /// A known protocol tag and a data centre from 1 to 5.
    Obfuscated2 { dc: u8, tag: u32, raw_dc: i16 },
    /// A known protocol tag, but the data centre is not one from 1 to 5.
    BadDc { tag: u32, raw_dc: i16 },
    /// The protocol tag is unknown: some other kind of packet.
    NotObfuscated2 { tag: u32, raw_dc: i16 },
}

/// Byte number `position` of the AES-256 keystream in counter mode, for a 32-byte key and a
/// 16-byte initial counter block that counts as one big-endian number.
pub uninterp spec fn aes256_ctr_keystream(key: Seq<u8>, iv: Seq<u8>, position: int) -> u8;

/// `data` under the AES-256 keystream of `key` and `iv`.
pub open spec fn under_keystream(key: Seq<u8>, iv: Seq<u8>, data: Seq<u8>) -> Seq<u8> {
    Seq::new(data.len(), |i: int| data[i] ^ aes256_ctr_keystream(key, iv, i))
}

/// Applies the AES-256 keystream in counter mode to `data`, in place.
///
/// The work is done by `apply_keystream` of `cipher::StreamCipher`, on a fresh
/// `ctr::Ctr128BE<aes::Aes256>`. The contract claims that every byte of the data is combined by
/// exclusive or with the byte of the keystream at its position, and that the keystream depends on
/// the key and the initial counter block alone.
#[verifier::external_body]
fn apply_aes256_ctr(key: &[u8], iv: &[u8], data: &mut [u8; 64])
    requires
        key@.len() == 32,
        iv@.len() == 16,
    ensures
        forall|i: int|
            0 <= i < 64 ==> #[trigger] final(data)@[i] == old(data)@[i] ^ aes256_ctr_keystream(
                key@,
                iv@,
                i,
            ),
{
    let mut cipher = ctr::Ctr128BE::<Aes256>::new(key.into(), iv.into());
    cipher.apply_keystream(data);
}

/// The packet after decryption under the key and the counter block that it carries itself.
pub open spec fn decrypted(init: Seq<u8>) -> Seq<u8> {
    under_keystream(init.subrange(8, 40), init.subrange(40, 56), init)
}

/// The protocol tag: four bytes, the least significant first.
pub open spec fn tag_of(dec: Seq<u8>) -> u32 {
    (dec[56] + 0x100 * dec[57] + 0x1_0000 * dec[58] + 0x100_0000 * dec[59]) as u32
}

/// The data centre as it was sent: a signed number of two bytes, the least significant first.
pub open spec fn raw_dc_of(dec: Seq<u8>) -> i16 {
    let n = dec[60] + 0x100 * dec[61];
    if n < 0x8000 {
        n as i16
    } else {
        (n - 0x1_0000) as i16
    }
}

/// Whether a tag is one of the known protocol tags.
pub open spec fn known_tag(tag: u32) -> bool {
    tag == TAG_ABRIDGED || tag == TAG_INTERMEDIATE || tag == TAG_PADDED_INTERMEDIATE
}

/// The number of the data centre: the magnitude of what was sent.
pub open spec fn dc_number(raw_dc: i16) -> int {
    if raw_dc < 0 {
        -raw_dc
    } else {
        raw_dc as int
    }
}

/// What a tag and a data centre amount to.
pub open spec fn verdict(tag: u32, raw_dc: i16) -> InitResult {
    if !known_tag(tag) {
        InitResult::NotObfuscated2 { tag, raw_dc }
    } else if 1 <= dc_number(raw_dc) <= 5 {
        InitResult::Obfuscated2 { dc: dc_number(raw_dc) as u8, tag, raw_dc }
    } else {
        InitResult::BadDc { tag, raw_dc }
    }
}

/// What a packet tells, once it is decrypted.
pub fn classify_decrypted(dec: &[u8; 64]) -> (r: InitResult)
    ensures
        r == verdict(tag_of(dec@), raw_dc_of(dec@)),
{
    let tag: u32 = dec[56] as u32 + 0x100 * (dec[57] as u32) + 0x1_0000 * (dec[58] as u32)
        + 0x100_0000 * (dec[59] as u32);
    let n: i32 = dec[60] as i32 + 0x100 * (dec[61] as i32);
    let raw_dc: i16 = if n < 0x8000 {
        n as i16
    } else {
        (n - 0x1_0000) as i16
    };
    let magnitude: i32 = if raw_dc < 0 {
        -(raw_dc as i32)
    } else {
        raw_dc as i32
    };
    let is_known_tag = tag == TAG_ABRIDGED || tag == TAG_INTERMEDIATE || tag
        == TAG_PADDED_INTERMEDIATE;
    if is_known_tag && 1 <= magnitude && magnitude <= 5 {
        InitResult::Obfuscated2 { dc: magnitude as u8, tag, raw_dc }
    } else if is_known_tag {
        InitResult::BadDc { tag, raw_dc }
    } else {
        InitResult::NotObfuscated2 { tag, raw_dc }
    }
}

/// Decrypts the first packet and reads the protocol tag and the data centre from it.
pub fn analyze_init(init: &[u8; 64]) -> (r: InitResult)
    ensures
        r == verdict(tag_of(decrypted(init@)), raw_dc_of(decrypted(init@))),
{
    let key = &init[8..40];
    let iv = &init[40..56];
    let mut dec: [u8; 64] = *init;
    apply_aes256_ctr(key, iv, &mut dec);
    proof {
        assert(dec@ =~= decrypted(init@));
    }
    classify_decrypted(&dec)
}

/// The name of a protocol tag.
pub open spec fn name_of_tag(tag: u32) -> Seq<char> {
    if tag == TAG_ABRIDGED {
        "abridged"@
    } else if tag == TAG_INTERMEDIATE {
        "intermediate"@
    } else if tag == TAG_PADDED_INTERMEDIATE {
        "padded-intermediate"@
    } else {
        "unknown"@
    }
}

/// The name of a protocol tag.
pub fn tag_name(tag: u32) -> (name: &'static str)
    ensures
        name@ == name_of_tag(tag),
{
    if tag == TAG_ABRIDGED {
        "abridged"
    } else if tag == TAG_INTERMEDIATE {
        "intermediate"
    } else if tag == TAG_PADDED_INTERMEDIATE {
        "padded-intermediate"
    } else {
        "unknown"
    }
}

/// The packet that carries `plain` in its encrypted bytes: `head` holds the random bytes, the key
/// and the counter block.
pub open spec fn sealed(head: Seq<u8>, plain: Seq<u8>) -> Seq<u8> {
    head + Seq::new(
        plain.len(),
        |i: int|
            plain[i] ^ aes256_ctr_keystream(head.subrange(8, 40), head.subrange(40, 56), 56 + i),
    )
}

/// The bytes that a client encrypts: the tag, the data centre, and two bytes without a meaning.
pub open spec fn announcement(tag: u32, raw_dc: i16, pad: (u8, u8)) -> Seq<u8> {
    let n = if raw_dc < 0 {
        raw_dc + 0x1_0000
    } else {
        raw_dc as int
    };
    seq![
        (tag as int % 0x100) as u8,
        (tag as int / 0x100 % 0x100) as u8,
        (tag as int / 0x1_0000 % 0x100) as u8,
        (tag as int / 0x100_0000) as u8,
        (n % 0x100) as u8,
        (n / 0x100) as u8,
        pad.0,
        pad.1,
    ]
}

/// A client that announces a tag and a data centre is understood, whatever the key: the analysis of
/// its packet gives the verdict on just these two.
pub proof fn lemma_announcement_is_understood(
    head: Seq<u8>,
    tag: u32,
    raw_dc: i16,
    pad: (u8, u8),
)
    requires
        head.len() == 56,
    ensures
        sealed(head, announcement(tag, raw_dc, pad)).len() == 64,
        tag_of(decrypted(sealed(head, announcement(tag, raw_dc, pad)))) == tag,
        raw_dc_of(decrypted(sealed(head, announcement(tag, raw_dc, pad)))) == raw_dc,
{
    let plain = announcement(tag, raw_dc, pad);
    lemma_sealed_opens(head, plain);
    let dec = decrypted(sealed(head, plain));
    assert forall|i: int| 0 <= i < 8 implies dec[56 + i] == plain[i] by {
        assert(dec.subrange(56, 64)[i] == dec[56 + i]);
    }
    assert(dec[56] == plain[0] && dec[57] == plain[1] && dec[58] == plain[2] && dec[59] == plain[3]);
    assert(dec[60] == plain[4] && dec[61] == plain[5]);
}

/// Decryption gives back the bytes that the sender encrypted, whatever the key.
pub proof fn lemma_sealed_opens(head: Seq<u8>, plain: Seq<u8>)
    requires
        head.len() == 56,
        plain.len() == 8,
    ensures
        sealed(head, plain).len() == 64,
        decrypted(sealed(head, plain)).subrange(56, 64) == plain,
{
    let packet = sealed(head, plain);
    let (key, iv) = (head.subrange(8, 40), head.subrange(40, 56));
    assert(packet.subrange(8, 40) =~= key);
    assert(packet.subrange(40, 56) =~= iv);
    assert forall|i: int| 0 <= i < 8 implies decrypted(packet)[56 + i] == plain[i] by {
        let p = plain[i];
        let k = aes256_ctr_keystream(key, iv, 56 + i);
        assert(packet[56 + i] == p ^ k);
        assert((p ^ k) ^ k == p) by (bit_vector);
    }
    assert(decrypted(packet).subrange(56, 64) =~= plain);
}

/// The random bytes at the start and the last two bytes say nothing: packets that agree on the
/// bytes between them are told apart in no way.
pub proof fn lemma_padding_is_ignored(x: Seq<u8>, y: Seq<u8>)
    requires
        x.len() == 64,
        y.len() == 64,
        x.subrange(8, 62) == y.subrange(8, 62),
    ensures
        tag_of(decrypted(x)) == tag_of(decrypted(y)),
        raw_dc_of(decrypted(x)) == raw_dc_of(decrypted(y)),
{
    let (a, b) = (x.subrange(8, 62), y.subrange(8, 62));
    assert(x.subrange(8, 40) =~= a.subrange(0, 32));
    assert(y.subrange(8, 40) =~= b.subrange(0, 32));
    assert(x.subrange(40, 56) =~= a.subrange(32, 48));
    assert(y.subrange(40, 56) =~= b.subrange(32, 48));
    assert forall|i: int| 56 <= i < 62 implies x[i] == y[i] by {
        assert(x[i] == a[i - 8]);
        assert(y[i] == b[i - 8]);
    }
}

/// The sign of the data centre does not matter: a number and its negation name the same one.
pub proof fn lemma_dc_sign_is_ignored(raw_dc: i16)
    requires
        raw_dc > i16::MIN,
    ensures
        dc_number((-raw_dc) as i16) == dc_number(raw_dc),
{
}

/// Byte number `i` of a packet after decryption: bytes 8 to 39 are the key, and bytes 40 to 55 the
/// counter block.
pub open spec fn opened(packet: Seq<u8>, i: int) -> u8 {
    packet[i] ^ aes256_ctr_keystream(packet.subrange(8, 40), packet.subrange(40, 56), i)
}

/// Whether these bytes are a tag and a data centre, the least significant byte of each first.
pub open spec fn spells(b: (u8, u8, u8, u8), c: (u8, u8), tag: u32, raw_dc: i16) -> bool {
    &&& b.0 == tag % 0x100
    &&& b.1 == tag / 0x100 % 0x100
    &&& b.2 == tag / 0x1_0000 % 0x100
    &&& b.3 == tag / 0x100_0000
    &&& c.0 + 0x100 * c.1 == if raw_dc < 0 {
        raw_dc + 0x1_0000
    } else {
        raw_dc as int
    }
}

/// Whether a result is the right one for a tag and a data centre: the tag must be one of three, and
/// the data centre, or its negation, one from 1 to 5. The result repeats what was sent.
pub open spec fn tells(r: InitResult, tag: u32, raw_dc: i16) -> bool {
    let known = tag == 0xefefefef || tag == 0xeeeeeeee || tag == 0xdddddddd;
    match r {
        InitResult::Obfuscated2 { dc, tag: t, raw_dc: d } => {
            &&& known && t == tag && d == raw_dc
            &&& 1 <= dc <= 5
            &&& dc == raw_dc || dc == -raw_dc
        },
        InitResult::BadDc { tag: t, raw_dc: d } => {
            &&& known && t == tag && d == raw_dc
            &&& raw_dc == 0 || raw_dc > 5 || raw_dc < -5
        },
        InitResult::NotObfuscated2 { tag: t, raw_dc: d } => !known && t == tag && d == raw_dc,
    }
}

/// The tag in bytes 56 to 59 of a decrypted packet and the data centre in bytes 60 and 61 decide
/// what it tells, and nothing else does.
pub proof fn lemma_decrypted_is_classified(dec: [u8; 64], r: InitResult, tag: u32, raw_dc: i16)
    requires
        call_ensures(classify_decrypted, (&dec,), r),
        spells((dec@[56], dec@[57], dec@[58], dec@[59]), (dec@[60], dec@[61]), tag, raw_dc),
    ensures
        tells(r, tag, raw_dc),
        call_requires(classify_decrypted, (&dec,)),
{
    lemma_spelled_is_read(dec@, tag, raw_dc);
}

/// What is read from bytes is what they spell.
pub proof fn lemma_spelled_is_read(dec: Seq<u8>, tag: u32, raw_dc: i16)
    requires
        spells((dec[56], dec[57], dec[58], dec[59]), (dec[60], dec[61]), tag, raw_dc),
    ensures
        tag_of(dec) == tag,
        raw_dc_of(dec) == raw_dc,
{
}

/// The same of a packet as it comes: it is decrypted under the key and the counter block that it
/// carries, whatever these are.
pub proof fn lemma_packet_is_analyzed(init: [u8; 64], r: InitResult, tag: u32, raw_dc: i16)
    requires
        call_ensures(analyze_init, (&init,), r),
        spells(
            (opened(init@, 56), opened(init@, 57), opened(init@, 58), opened(init@, 59)),
            (opened(init@, 60), opened(init@, 61)),
            tag,
            raw_dc,
        ),
    ensures
        tells(r, tag, raw_dc),
        call_requires(analyze_init, (&init,)),
{
    let dec = decrypted(init@);
    assert(forall|i: int| 0 <= i < 64 ==> #[trigger] dec[i] == opened(init@, i));
    lemma_spelled_is_read(dec, tag, raw_dc);
}

/// Each of the three tags has its name, and no other tag has one.
pub proof fn lemma_tag_names(tag: u32, name: &'static str)
    requires
        call_ensures(tag_name, (tag,), name),
    ensures
        call_requires(tag_name, (tag,)),
        tag == 0xefefefef ==> name@ == "abridged"@,
        tag == 0xeeeeeeee ==> name@ == "intermediate"@,
        tag == 0xdddddddd ==> name@ == "padded-intermediate"@,
        tag != 0xefefefef && tag != 0xeeeeeeee && tag != 0xdddddddd ==> name@ == "unknown"@,
        known_tag(tag) <==> tag == 0xefefefef || tag == 0xeeeeeeee || tag == 0xdddddddd,
{
}

} // verus!
