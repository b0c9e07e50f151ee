//! What is known of Telegram's network: its address blocks, its data centres (DCs), and the
//! WebSocket endpoint of each data centre.

use vstd::arithmetic::power2::{lemma2_to64, pow2};
use vstd::prelude::*;

use crate::ipv4::{lemma_dotted_injective, parse_ipv4, Ipv4Addr};
use crate::text::{decimal, push_decimal};

verus! {

/// Whether `ip` lies in the block of addresses that share their first `bits` bits with `network`.
pub open spec fn in_block(ip: Ipv4Addr, network: Ipv4Addr, bits: nat) -> bool {
    ip.number() / pow2((32 - bits) as nat) == network.number() / pow2((32 - bits) as nat)
}

/// Telegram's address blocks: each network with the length of its prefix.
pub open spec fn telegram_blocks() -> Seq<(Ipv4Addr, nat)> {
    seq![
        (Ipv4Addr { a: 149, b: 154, c: 160, d: 0 }, 20nat),
        (Ipv4Addr { a: 91, b: 108, c: 4, d: 0 }, 22nat),
        (Ipv4Addr { a: 91, b: 108, c: 8, d: 0 }, 22nat),
        (Ipv4Addr { a: 91, b: 108, c: 12, d: 0 }, 22nat),
        (Ipv4Addr { a: 91, b: 108, c: 16, d: 0 }, 22nat),
        (Ipv4Addr { a: 91, b: 108, c: 20, d: 0 }, 22nat),
        (Ipv4Addr { a: 91, b: 108, c: 56, d: 0 }, 22nat),
        (Ipv4Addr { a: 185, b: 76, c: 151, d: 0 }, 24nat),
    ]
}

/// Whether `ip` belongs to Telegram.
pub open spec fn telegram_address(ip: Ipv4Addr) -> bool {
    exists|i: int|
        0 <= i < telegram_blocks().len() && in_block(
            ip,
            (#[trigger] telegram_blocks()[i]).0,
            telegram_blocks()[i].1,
        )
}

/// A block of `size` addresses is the range of numbers that starts at its network.
proof fn lemma_block_range(ip: Ipv4Addr, network: Ipv4Addr, bits: nat, size: nat)
    requires
        size == 256 && bits == 24 || size == 1024 && bits == 22 || size == 4096 && bits == 20,
        network.number() % size == 0,
    ensures
        in_block(ip, network, bits) <==> network.number() <= ip.number() < network.number() + size,
{
    lemma2_to64();
    let m = network.number();
    let n = ip.number();
    assert(pow2((32 - bits) as nat) == size);
    assert(n / size == m / size <==> m <= n < m + size) by (nonlinear_arith)
        requires
            size == 256 || size == 1024 || size == 4096,
            m % size == 0,
    ;
}

/// Telegram's blocks, octet by octet.
pub proof fn lemma_telegram_octets(ip: Ipv4Addr)
    ensures
        telegram_address(ip) <==> {
            ||| ip.a == 149 && ip.b == 154 && 160 <= ip.c <= 175
            ||| ip.a == 91 && ip.b == 108 && (4 <= ip.c <= 23 || 56 <= ip.c <= 59)
            ||| ip.a == 185 && ip.b == 76 && ip.c == 151
        },
{
    let t = telegram_blocks();
    lemma_block_range(ip, t[0].0, t[0].1, 4096);
    lemma_block_range(ip, t[1].0, t[1].1, 1024);
    lemma_block_range(ip, t[2].0, t[2].1, 1024);
    lemma_block_range(ip, t[3].0, t[3].1, 1024);
    lemma_block_range(ip, t[4].0, t[4].1, 1024);
    lemma_block_range(ip, t[5].0, t[5].1, 1024);
    lemma_block_range(ip, t[6].0, t[6].1, 1024);
    lemma_block_range(ip, t[7].0, t[7].1, 256);
}

/// Whether a host is an IPv4 address, in dotted decimal notation, that belongs to Telegram.
pub open spec fn telegram_host(host: Seq<char>) -> bool {
    exists|ip: Ipv4Addr| host == #[trigger] ip.dotted() && telegram_address(ip)
}

/// Whether `addr` is an IPv4 address, in dotted decimal notation, that belongs to Telegram.
pub fn is_telegram_ip(addr: &str) -> (r: bool)
    ensures
        r <==> telegram_host(addr@),
{
    let ip = match parse_ipv4(addr) {
        Some(ip) => ip,
        None => return false,
    };
    let n: u32 = ip.to_u32();
    let r = (0x959A_A000 <= n && n <= 0x959A_AFFF)  // 149.154.160.0/20
     || (0x5B6C_0400 <= n && n <= 0x5B6C_07FF)  // 91.108.4.0/22
     || (0x5B6C_0800 <= n && n <= 0x5B6C_0BFF)  // 91.108.8.0/22
     || (0x5B6C_0C00 <= n && n <= 0x5B6C_0FFF)  // 91.108.12.0/22
     || (0x5B6C_1000 <= n && n <= 0x5B6C_13FF)  // 91.108.16.0/22
     || (0x5B6C_1400 <= n && n <= 0x5B6C_17FF)  // 91.108.20.0/22
     || (0x5B6C_3800 <= n && n <= 0x5B6C_3BFF)  // 91.108.56.0/22
     || (0xB94C_9700 <= n && n <= 0xB94C_97FF);  // 185.76.151.0/24
    proof {
        lemma_telegram_octets(ip);
        assert(r <==> telegram_address(ip));
        assert forall|other: Ipv4Addr| addr@ == #[trigger] other.dotted() implies other == ip by {
            lemma_dotted_injective(other, ip);
        }
    }
    r
}

/// The data centre that an address most likely belongs to.
pub open spec fn dc_of_address(ip: Ipv4Addr) -> Option<u8> {
    if ip.a == 149 && ip.b == 154 {
        if 160 <= ip.c <= 163 || 172 <= ip.c <= 175 {
            Some(1)
        } else if 168 <= ip.c <= 171 {
            Some(3)
        } else {
            Some(2)
        }
    } else if ip.a == 91 && ip.b == 108 {
        if 4 <= ip.c <= 7 || 12 <= ip.c <= 15 {
            Some(4)
        } else if 8 <= ip.c <= 11 {
            Some(3)
        } else if 56 <= ip.c <= 59 {
            Some(5)
        } else {
            Some(2)
        }
    } else if ip.a == 185 && ip.b == 76 && ip.c == 151 {
        Some(2)
    } else {
        None
    }
}

/// A guess at the data centre from the address, for packets that do not name one.
pub fn dc_from_ip(ip: Ipv4Addr) -> (r: Option<u8>)
    ensures
        r == dc_of_address(ip),
{
    match (ip.a, ip.b) {
        (149, 154) => Some(
            match ip.c {
                160..=163 => 1,
                164..=167 => 2,
                168..=171 => 3,
                172..=175 => 1,
                _ => 2,
            },
        ),
        (91, 108) => Some(
            match ip.c {
                4..=7 => 4,
                8..=11 => 3,
                12..=15 => 4,
                16..=19 => 2,
                20..=23 => 2,
                56..=59 => 5,
                _ => 2,
            },
        ),
        (185, 76) if ip.c == 151 => Some(2),
        _ => None,
    }
}

/// The data centre that a host most likely belongs to; only an IPv4 address tells.
pub open spec fn dc_of_host(host: Seq<char>) -> Option<u8> {
    if exists|ip: Ipv4Addr| host == #[trigger] ip.dotted() {
        dc_of_address(choose|ip: Ipv4Addr| host == #[trigger] ip.dotted())
    } else {
        None
    }
}

/// A guess at the data centre from the host that a client asked for.
pub fn dc_from_host(host: &str) -> (r: Option<u8>)
    ensures
        r == dc_of_host(host@),
{
    match parse_ipv4(host) {
        Some(ip) => {
            proof {
                let other = choose|other: Ipv4Addr| host@ == #[trigger] other.dotted();
                lemma_dotted_injective(ip, other);
            }
            dc_from_ip(ip)
        },
        None => None,
    }
}

/// A host is guessed by the address that it spells.
pub proof fn lemma_dc_of_spelled_host(ip: Ipv4Addr)
    ensures
        dc_of_host(ip.dotted()) == dc_of_address(ip),
{
    let other = choose|other: Ipv4Addr| ip.dotted() == #[trigger] other.dotted();
    lemma_dotted_injective(ip, other);
}

/// Every host of Telegram has a data centre, numbered from 1 to 5.
pub proof fn lemma_telegram_host_has_dc(host: Seq<char>)
    requires
        telegram_host(host),
    ensures
        dc_of_host(host) matches Some(dc) && 1 <= dc <= 5,
{
    let ip = choose|ip: Ipv4Addr| host == #[trigger] ip.dotted() && telegram_address(ip);
    lemma_dc_of_spelled_host(ip);
    lemma_telegram_has_dc(ip);
}

/// Every address of Telegram has a data centre, numbered from 1 to 5.
pub proof fn lemma_telegram_has_dc(ip: Ipv4Addr)
    requires
        telegram_address(ip),
    ensures
        dc_of_address(ip) matches Some(dc) && 1 <= dc <= 5,
{
    lemma_telegram_octets(ip);
}

/// The host name of a data centre's WebSocket endpoint.
pub open spec fn host_of_dc(dc: u8) -> Seq<char> {
    "kws"@ + decimal(dc as nat) + ".web.telegram.org"@
}

/// The URL of a data centre's WebSocket endpoint.
pub open spec fn url_of_dc(dc: u8) -> Seq<char> {
    "wss://kws"@ + decimal(dc as nat) + ".web.telegram.org/apiws"@
}

/// The URL of a data centre's WebSocket endpoint.
pub fn ws_url(dc: u8) -> (url: String)
    ensures
        url@ == url_of_dc(dc),
{
    let mut url = String::from_str("wss://kws");
    push_decimal(&mut url, dc as u128);
    url.append(".web.telegram.org/apiws");
    url
}

/// The host name of a data centre's WebSocket endpoint.
pub fn ws_host(dc: u8) -> (host: String)
    ensures
        host@ == host_of_dc(dc),
{
    let mut host = String::from_str("kws");
    push_decimal(&mut host, dc as u128);
    host.append(".web.telegram.org");
    host
}

/// The endpoint's URL is the secure WebSocket path `/apiws` on the endpoint's host.
pub proof fn lemma_url_names_host(dc: u8)
    ensures
        url_of_dc(dc) == "wss://"@ + host_of_dc(dc) + "/apiws"@,
{
    reveal_strlit("wss://");
    reveal_strlit("kws");
    reveal_strlit("wss://kws");
    reveal_strlit("/apiws");
    reveal_strlit(".web.telegram.org");
    reveal_strlit(".web.telegram.org/apiws");
    assert("wss://kws"@ =~= "wss://"@ + "kws"@);
    assert(".web.telegram.org/apiws"@ =~= ".web.telegram.org"@ + "/apiws"@);
    assert(url_of_dc(dc) =~= "wss://"@ + host_of_dc(dc) + "/apiws"@);
}

/// The address at which a data centre is reached; unknown numbers go where the second one is.
pub open spec fn address_of_dc(dc: u8) -> Ipv4Addr {
    if dc == 1 {
        Ipv4Addr { a: 149, b: 154, c: 175, d: 50 }
    } else if dc == 3 {
        Ipv4Addr { a: 149, b: 154, c: 174, d: 100 }
    } else if dc == 5 {
        Ipv4Addr { a: 91, b: 108, c: 56, d: 190 }
    } else {
        Ipv4Addr { a: 149, b: 154, c: 167, d: 220 }
    }
}

/// The address at which a data centre is reached, so that no name has to be resolved.
pub fn dc_ip(dc: u8) -> (addr: &'static str)
    ensures
        addr@ == address_of_dc(dc).dotted(),
{
    proof {
        reveal_with_fuel(decimal, 3);
        reveal_strlit("149.154.175.50");
        reveal_strlit("149.154.167.220");
        reveal_strlit("149.154.174.100");
        reveal_strlit("91.108.56.190");
        assert("149.154.175.50"@ =~= address_of_dc(1).dotted());
        assert("149.154.167.220"@ =~= address_of_dc(2).dotted());
        assert("149.154.174.100"@ =~= address_of_dc(3).dotted());
        assert("91.108.56.190"@ =~= address_of_dc(5).dotted());
    }
    match dc {
        1 => "149.154.175.50",
        2 => "149.154.167.220",
        3 => "149.154.174.100",
        4 => "149.154.167.220",
        5 => "91.108.56.190",
        _ => "149.154.167.220",
    }
}

/// Every data centre is reached inside Telegram's own blocks.
pub proof fn lemma_dc_inside_telegram(dc: u8)
    ensures
        telegram_address(address_of_dc(dc)),
{
    lemma_telegram_octets(address_of_dc(dc));
}

/// A host in dotted decimal notation counts as one of Telegram exactly if its address lies in one of
/// Telegram's blocks.
pub proof fn lemma_spelled_host_is_telegram(ip: Ipv4Addr)
    ensures
        telegram_host(ip.dotted()) <==> telegram_address(ip),
{
    if telegram_host(ip.dotted()) {
        let other = choose|other: Ipv4Addr|
            ip.dotted() == #[trigger] other.dotted() && telegram_address(other);
        lemma_dotted_injective(ip, other);
    }
}

/// An address goes to Telegram exactly if it lies in 149.154.160.0/20, in 91.108.4.0 to
/// 91.108.23.255, in 91.108.56.0/22 or in 185.76.151.0/24.
pub proof fn lemma_telegram_is_told(addr: &str, ip: Ipv4Addr, r: bool)
    requires
        call_ensures(is_telegram_ip, (addr,), r),
        addr@ == ip.dotted(),
    ensures
        call_requires(is_telegram_ip, (addr,)),
        r <==> {
            ||| ip.a == 149 && ip.b == 154 && ip.c / 16 == 10
            ||| ip.a == 91 && ip.b == 108 && (1 <= ip.c / 4 <= 5 || ip.c / 4 == 14)
            ||| ip.a == 185 && ip.b == 76 && ip.c == 151
        },
{
    lemma_spelled_host_is_telegram(ip);
    lemma_telegram_octets(ip);
}

/// What is no IPv4 address in dotted decimal notation does not go to Telegram.
pub proof fn lemma_other_hosts_are_not_telegram(addr: &str, r: bool)
    requires
        call_ensures(is_telegram_ip, (addr,), r),
        forall|ip: Ipv4Addr| addr@ != #[trigger] ip.dotted(),
    ensures
        !r,
{
}

/// The data centre goes by blocks of 1024 addresses, so that the last octet and the last two bits of
/// the third have no say. Two networks are known as a whole, and the rest of each goes to the
/// second data centre; of one more only one block of 256 addresses is known.
pub proof fn lemma_dc_goes_by_blocks(ip: Ipv4Addr, r: Option<u8>)
    requires
        call_ensures(dc_from_ip, (ip,), r),
    ensures
        call_requires(dc_from_ip, (ip,)),
        r is Some <==> (ip.a == 149 && ip.b == 154) || (ip.a == 91 && ip.b == 108) || (ip.a == 185
            && ip.b == 76 && ip.c == 151),
        r is Some ==> 1 <= r->0 <= 5,
        r == Some(1u8) <==> ip.a == 149 && ip.b == 154 && (ip.c / 4 == 40 || ip.c / 4 == 43),
        r == Some(3u8) <==> (ip.a == 149 && ip.b == 154 && ip.c / 4 == 42) || (ip.a == 91 && ip.b
            == 108 && ip.c / 4 == 2),
        r == Some(4u8) <==> ip.a == 91 && ip.b == 108 && (ip.c / 4 == 1 || ip.c / 4 == 3),
        r == Some(5u8) <==> ip.a == 91 && ip.b == 108 && ip.c / 4 == 14,
{
}

/// A host has the data centre of the address that it spells, and none if it spells no address.
pub proof fn lemma_dc_of_host_is_told(host: &str, ip: Ipv4Addr, r: Option<u8>, s: Option<u8>)
    requires
        call_ensures(dc_from_host, (host,), r),
        call_ensures(dc_from_ip, (ip,), s),
    ensures
        call_requires(dc_from_host, (host,)),
        host@ == ip.dotted() ==> r == s,
        (forall|other: Ipv4Addr| host@ != #[trigger] other.dotted()) ==> r is None,
{
    if host@ == ip.dotted() {
        lemma_dc_of_spelled_host(ip);
    }
}

/// The endpoint of every data centre is `kws`, its number and `.web.telegram.org`; the URL is the
/// secure WebSocket path `/apiws` there.
pub proof fn lemma_endpoint_names(dc: u8, url: String, host: String)
    requires
        call_ensures(ws_url, (dc,), url),
        call_ensures(ws_host, (dc,), host),
    ensures
        call_requires(ws_url, (dc,)),
        call_requires(ws_host, (dc,)),
        host@ == "kws"@ + decimal(dc as nat) + ".web.telegram.org"@,
        url@ == "wss://"@ + host@ + "/apiws"@,
        host@ == host_of_dc(dc),
        url@ == url_of_dc(dc),
{
    lemma_url_names_host(dc);
}

/// Data centres 1, 3 and 5 have an address each; the second, the fourth and every number that is
/// none share one.
pub proof fn lemma_dc_addresses(dc: u8, addr: &'static str)
    requires
        call_ensures(dc_ip, (dc,), addr),
    ensures
        call_requires(dc_ip, (dc,)),
        addr@ == address_of_dc(dc).dotted(),
        dc == 1 ==> addr@ == "149.154.175.50"@,
        dc == 3 ==> addr@ == "149.154.174.100"@,
        dc == 5 ==> addr@ == "91.108.56.190"@,
        dc != 1 && dc != 3 && dc != 5 ==> addr@ == "149.154.167.220"@,
{
    reveal_with_fuel(decimal, 3);
    reveal_strlit("149.154.175.50");
    reveal_strlit("149.154.167.220");
    reveal_strlit("149.154.174.100");
    reveal_strlit("91.108.56.190");
    assert("149.154.175.50"@ =~= address_of_dc(1).dotted());
    assert("149.154.167.220"@ =~= address_of_dc(2).dotted());
    assert("149.154.174.100"@ =~= address_of_dc(3).dotted());
    assert("91.108.56.190"@ =~= address_of_dc(5).dotted());
}

} // verus!
