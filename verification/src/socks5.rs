//! The bytes of the SOCKS5 protocol (RFC 1928) that the proxy reads and writes.

use vstd::prelude::*;
use vstd::utf8::{
    decode_utf8, encode_utf8, encode_utf8_decode_utf8, encode_utf8_valid_utf8, valid_utf8,
};

use crate::ipv4::{lemma_dotted_injective, Ipv4Addr};
use crate::ipv6::{format_ipv6, ipv6_of_text, ipv6_text, lemma_ipv6_text_reads_back};
use crate::utf8::{bad_sequence_len, decode, fault_of, lemma_valid_start, Utf8Fault};

verus! {

/// Why the destination of a request cannot be read.
#[derive(Clone, Copy, Debug, PartialEq, Eq)]
pub enum DestError {
    /// The request ends before the destination does.
    Short,
    /// The type of the address is none of IPv4, domain name and IPv6.
    UnknownAddrType,
    /// The domain name is not UTF-8.
    NotUtf8(Utf8Fault),
}

/// Two bytes as a number, the most significant first.
pub open spec fn be16(high: u8, low: u8) -> u16 {
    (0x100 * high + low) as u16
}

/// The eight segments of an IPv6 address of sixteen bytes.
pub open spec fn segments(bytes: Seq<u8>) -> Seq<u16> {
    Seq::new(8, |i: int| be16(bytes[2 * i], bytes[2 * i + 1]))
}

/// The destination that `data` starts with: the type of the address, the address, and the port.
/// Whatever follows is of no account.
pub open spec fn dest_of(data: Seq<u8>) -> Result<(Seq<char>, u16), DestError> {
    if data[0] == 1 {
        if data.len() < 7 {
            Err(DestError::Short)
        } else {
            let ip = Ipv4Addr { a: data[1], b: data[2], c: data[3], d: data[4] };
            Ok((ip.dotted(), be16(data[5], data[6])))
        }
    } else if data[0] == 3 {
        let n = data[1] as int;
        if data.len() < 2 + n + 2 {
            Err(DestError::Short)
        } else {
            let name = data.subrange(2, 2 + n);
            if valid_utf8(name) {
                Ok((decode_utf8(name), be16(data[2 + n], data[3 + n])))
            } else {
                Err(DestError::NotUtf8(fault_of(name)))
            }
        }
    } else if data[0] == 4 {
        if data.len() < 19 {
            Err(DestError::Short)
        } else {
            Ok((ipv6_text(segments(data.subrange(1, 17))), be16(data[17], data[18])))
        }
    } else {
        Err(DestError::UnknownAddrType)
    }
}

/// Two bytes as a number, the most significant first.
fn from_be(high: u8, low: u8) -> (n: u16)
    ensures
        n == be16(high, low),
{
    0x100 * (high as u16) + low as u16
}

/// Reads the destination of a request: the host as text, and the port.
pub fn parse_dest(data: &[u8]) -> (r: Result<(String, u16), DestError>)
    requires
        data@.len() >= 1,
        data@[0] == 3 ==> data@.len() >= 2,
    ensures
        match dest_of(data@) {
            Ok((host, port)) => r matches Ok((h, p)) && h@ == host && p == port,
            Err(e) => r == Err::<(String, u16), DestError>(e),
        },
{
    match data[0] {
        0x01 => {
            if data.len() < 7 {
                return Err(DestError::Short);
            }
            let ip = Ipv4Addr { a: data[1], b: data[2], c: data[3], d: data[4] };
            Ok((ip.to_text(), from_be(data[5], data[6])))
        },
        0x03 => {
            let len: usize = data[1] as usize;
            if data.len() < 2 + len + 2 {
                return Err(DestError::Short);
            }
            match decode(&data[2..2 + len]) {
                Ok(domain) => Ok((domain, from_be(data[2 + len], data[3 + len]))),
                Err(fault) => {
                    proof {
                        assert(fault == fault_of(data@.subrange(2, 2 + len)));
                    }
                    Err(DestError::NotUtf8(fault))
                },
            }
        },
        0x04 => {
            if data.len() < 19 {
                return Err(DestError::Short);
            }
            let port: u16 = from_be(data[17], data[18]);
            let mut segs: [u16; 8] = [0u16; 8];
            let mut i: usize = 0;
            while i < 8
                invariant
                    i <= 8,
                    data@.len() >= 19,
                    forall|j: int| 0 <= j < i ==> segs@[j] == segments(data@.subrange(1, 17))[j],
                decreases 8 - i,
            {
                segs[i] = from_be(data[1 + i * 2], data[2 + i * 2]);
                i = i + 1;
            }
            proof {
                assert(segs@ =~= segments(data@.subrange(1, 17)));
            }
            Ok((format_ipv6(&segs), port))
        },
        _ => Err(DestError::UnknownAddrType),
    }
}

impl DestError {
    /// The error in words.
    pub open spec fn words(self) -> Seq<char> {
        match self {
            DestError::Short => "short"@,
            DestError::UnknownAddrType => "unknown addr type"@,
            DestError::NotUtf8(fault) => fault.words(),
        }
    }

    /// The error in words.
    pub fn message(&self) -> (s: String)
        ensures
            s@ == self.words(),
    {
        match self {
            DestError::Short => String::from_str("short"),
            DestError::UnknownAddrType => String::from_str("unknown addr type"),
            DestError::NotUtf8(fault) => fault.message(),
        }
    }
}

/// The two bytes of a port, the most significant first.
pub open spec fn port_bytes(port: u16) -> Seq<u8> {
    seq![(port / 0x100) as u8, (port % 0x100) as u8]
}

/// An IPv4 address that a client puts into a request is read back, whatever follows it: the host is
/// the text of that address, and of no other.
pub proof fn lemma_ipv4_is_read_back(ip: Ipv4Addr, port: u16, rest: Seq<u8>)
    ensures
        dest_of(seq![1u8, ip.a, ip.b, ip.c, ip.d] + port_bytes(port) + rest) == Ok::<
            (Seq<char>, u16),
            DestError,
        >((ip.dotted(), port)),
        forall|other: Ipv4Addr| #[trigger] other.dotted() == ip.dotted() ==> other == ip,
{
    assert forall|other: Ipv4Addr| #[trigger] other.dotted() == ip.dotted() implies other == ip by {
        lemma_dotted_injective(other, ip);
    }
}

/// An IPv6 address that a client puts into a request is read back, whatever follows it: the host is
/// a text that denotes that address.
pub proof fn lemma_ipv6_is_read_back(bytes: Seq<u8>, port: u16, rest: Seq<u8>)
    requires
        bytes.len() == 16,
    ensures
        dest_of(seq![4u8] + bytes + port_bytes(port) + rest) matches Ok((host, p)) && p == port
            && ipv6_of_text(host) == Some(segments(bytes)),
{
    let data = seq![4u8] + bytes + port_bytes(port) + rest;
    assert(data.subrange(1, 17) =~= bytes);
    lemma_ipv6_text_reads_back(segments(bytes));
}

/// A domain name that a client puts into a request is read back, whatever follows it.
pub proof fn lemma_domain_is_read_back(name: Seq<char>, port: u16, rest: Seq<u8>)
    requires
        encode_utf8(name).len() <= 255,
    ensures
        dest_of(
            seq![3u8, encode_utf8(name).len() as u8] + encode_utf8(name) + port_bytes(port) + rest,
        ) == Ok::<(Seq<char>, u16), DestError>((name, port)),
{
    let bytes = encode_utf8(name);
    let n = bytes.len() as int;
    let data = seq![3u8, n as u8] + bytes + port_bytes(port) + rest;
    encode_utf8_valid_utf8(name);
    encode_utf8_decode_utf8(name);
    assert(data.subrange(2, 2 + n) =~= bytes);
    assert(data[2 + n] == (port / 0x100) as u8);
    assert(data[3 + n] == (port % 0x100) as u8);
}

/// What follows a destination does not change it.
pub proof fn lemma_rest_is_ignored(data: Seq<u8>, rest: Seq<u8>)
    requires
        data.len() >= 1,
        dest_of(data) is Ok,
    ensures
        dest_of(data + rest) == dest_of(data),
{
    let all = data + rest;
    if data[0] == 3 {
        let n = data[1] as int;
        assert(all.subrange(2, 2 + n) =~= data.subrange(2, 2 + n));
    } else if data[0] == 4 {
        assert(all.subrange(1, 17) =~= data.subrange(1, 17));
    }
}

/// An address of type 1 is read from four bytes, and the port from the two after them, the most
/// significant first; with fewer bytes the request is short.
pub proof fn lemma_ipv4_request(data: &[u8], r: Result<(String, u16), DestError>)
    requires
        call_ensures(parse_dest, (data,), r),
        data@.len() >= 1,
        data@[0] == 1,
    ensures
        call_requires(parse_dest, (data,)),
        data@.len() < 7 ==> r == Err::<(String, u16), DestError>(DestError::Short),
        data@.len() >= 7 ==> {
            &&& r matches Ok((host, port))
            &&& host@ == (Ipv4Addr { a: data@[1], b: data@[2], c: data@[3], d: data@[4] }).dotted()
            &&& port == 256 * data@[5] + data@[6]
        },
{
}

/// An address of type 3 is a name: its length, that many bytes of UTF-8, and the port. The request
/// is short if it ends before, and a name that is not UTF-8 is told with the number of the bytes
/// before the fault.
pub proof fn lemma_domain_request(data: &[u8], r: Result<(String, u16), DestError>)
    requires
        call_ensures(parse_dest, (data,), r),
        data@.len() >= 2,
        data@[0] == 3,
    ensures
        call_requires(parse_dest, (data,)),
        ({
            let n = data@[1] as int;
            let name = data@.subrange(2, 2 + n);
            &&& data@.len() < n + 4 ==> r == Err::<(String, u16), DestError>(DestError::Short)
            &&& data@.len() >= n + 4 && valid_utf8(name) ==> {
                &&& r matches Ok((host, port))
                &&& host@ == decode_utf8(name)
                &&& port == 256 * data@[2 + n] + data@[3 + n]
            }
            &&& data@.len() >= n + 4 && !valid_utf8(name) ==> {
                &&& r matches Err(DestError::NotUtf8(fault))
                &&& fault.valid_up_to < n
                &&& fault.error_len == bad_sequence_len(name)
                &&& valid_utf8(name.subrange(0, fault.valid_up_to as int))
                &&& forall|m: int|
                    fault.valid_up_to < m <= n ==> !#[trigger] valid_utf8(name.subrange(0, m))
            }
        }),
{
    let n = data@[1] as int;
    if data@.len() >= n + 4 {
        let name = data@.subrange(2, 2 + n);
        lemma_valid_start(name, name.len());
        assert(name.subrange(0, n) =~= name);
    }
}

/// An address of type 4 is read from sixteen bytes, two for each segment, and the port from the two
/// after them; with fewer bytes the request is short. The host is the canonical text of the address
/// and denotes it.
pub proof fn lemma_ipv6_request(data: &[u8], r: Result<(String, u16), DestError>)
    requires
        call_ensures(parse_dest, (data,), r),
        data@.len() >= 1,
        data@[0] == 4,
    ensures
        call_requires(parse_dest, (data,)),
        data@.len() < 19 ==> r == Err::<(String, u16), DestError>(DestError::Short),
        data@.len() >= 19 ==> {
            let address = Seq::new(8, |i: int| (256 * data@[1 + 2 * i] + data@[2 + 2 * i]) as u16);
            &&& r matches Ok((host, port))
            &&& ipv6_of_text(host@) == Some(address)
            &&& host@ == ipv6_text(address)
            &&& port == 256 * data@[17] + data@[18]
        },
{
    if data@.len() >= 19 {
        let address = Seq::new(8, |i: int| (256 * data@[1 + 2 * i] + data@[2 + 2 * i]) as u16);
        assert(segments(data@.subrange(1, 17)) =~= address);
        lemma_ipv6_text_reads_back(address);
    }
}

/// There are no other types of addresses.
pub proof fn lemma_unknown_request(data: &[u8], r: Result<(String, u16), DestError>)
    requires
        call_ensures(parse_dest, (data,), r),
        data@.len() >= 1,
        data@[0] != 1,
        data@[0] != 3,
        data@[0] != 4,
    ensures
        call_requires(parse_dest, (data,)),
        r == Err::<(String, u16), DestError>(DestError::UnknownAddrType),
{
}

/// What is said of a destination that cannot be read.
pub proof fn lemma_dest_error_in_words(error: DestError, s: String)
    requires
        call_ensures(DestError::message, (&error,), s),
    ensures
        call_requires(DestError::message, (&error,)),
        error is Short ==> s@ == "short"@,
        error is UnknownAddrType ==> s@ == "unknown addr type"@,
        error matches DestError::NotUtf8(fault) ==> s@ == fault.words(),
{
}

} // verus!
