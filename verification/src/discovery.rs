use crate::decode::lossy_text;
use crate::decode::lossy_utf8;
use crate::text::chars_of;
use crate::text::str_concat;
use crate::text::decimal;
use crate::text::decimal_string;
use crate::text::lemma_decimal_digits;
use crate::text::string_of;
use vstd::prelude::*;
use vstd::string::*;
use vstd::utf8::*;

verus! {

/// The UDP port on which daemons announce themselves.
pub const BROADCAST_PORT: u16 = 50052;

/// What every announcement starts with.
pub open spec fn beacon_prefix() -> Seq<char> {
    "HELIOS_NODE:"@
}

/// The announcement of a daemon whose gRPC server listens on `port`.
pub open spec fn beacon_text(port: u16) -> Seq<char> {
    beacon_prefix() + decimal(port as nat)
}

/// The port text an announcement carries: what follows the prefix, when the
/// message starts with it and splits at ':' into exactly two parts.
pub open spec fn beacon_port(msg: Seq<char>) -> Option<Seq<char>> {
    let n = beacon_prefix().len();
    if n <= msg.len() && msg.take(n as int) == beacon_prefix() && !msg.skip(n as int).contains(':') {
        Some(msg.skip(n as int))
    } else {
        None
    }
}

/// The gRPC address of the peer at `ip` that announced `port`.
pub open spec fn peer_address(ip: Seq<char>, port: Seq<char>) -> Seq<char> {
    ip + seq![':'] + port
}

/// The announcement text for a gRPC port.
pub fn beacon_message(grpc_port: u16) -> (msg: String)
    ensures
        msg@ == beacon_text(grpc_port),
{
    let port = decimal_string(grpc_port as u64);
    str_concat("HELIOS_NODE:", port.as_str())
}

/// Where announcements are sent: the broadcast address at `BROADCAST_PORT`.
pub fn broadcast_address() -> (addr: String)
    ensures
        addr@ == "255.255.255.255:"@ + decimal(BROADCAST_PORT as nat),
{
    let port = decimal_string(BROADCAST_PORT as u64);
    str_concat("255.255.255.255:", port.as_str())
}

/// Where announcements are listened for: every interface at `BROADCAST_PORT`.
pub fn listen_address() -> (addr: String)
    ensures
        addr@ == "0.0.0.0:"@ + decimal(BROADCAST_PORT as nat),
{
    let port = decimal_string(BROADCAST_PORT as u64);
    str_concat("0.0.0.0:", port.as_str())
}

/// The peer that an announcement received from `ip` names, or `None` when
/// the message is no announcement.
pub fn peer_from_beacon(msg: &str, ip: &str) -> (peer: Option<String>)
    ensures
        match beacon_port(msg@) {
            Some(port) => peer matches Some(p) && p@ == peer_address(ip@, port),
            None => peer is None,
        },
        peer matches Some(p) ==> exists|port: Seq<char>|
            msg@ == "HELIOS_NODE:"@ + port && !port.contains(':') && p@ == ip@ + seq![':'] + port,
{
    proof { law_beacon_port_exact(msg@); }
    let chars = chars_of(msg);
    let prefix = chars_of("HELIOS_NODE:");
    let n = prefix.len();
    let len = chars.len();
    if len < n {
        return None;
    }
    let mut i: usize = 0;
    while i < n
        invariant
            prefix@ == beacon_prefix(),
            chars@ == msg@,
            n == prefix@.len(),
            n <= len == chars@.len(),
            0 <= i <= n,
            chars@.take(i as int) == prefix@.take(i as int),
        decreases n - i,
    {
        if chars[i] != prefix[i] {
            assert(chars@.take(n as int)[i as int] != prefix@[i as int]);
            assert(chars@.take(n as int) != beacon_prefix());
            return None;
        }
        assert(chars@.take(i + 1) =~= chars@.take(i as int).push(chars@[i as int]));
        assert(prefix@.take(i + 1) =~= prefix@.take(i as int).push(prefix@[i as int]));
        i = i + 1;
    }
    assert(prefix@.take(n as int) =~= prefix@);
    assert(chars@.take(n as int) == beacon_prefix());
    let mut j: usize = n;
    while j < len
        invariant
            chars@ == msg@,
            n == beacon_prefix().len(),
            chars@.take(n as int) == beacon_prefix(),
            n <= j <= len == chars@.len(),
            forall|k: int| n <= k < j ==> chars@[k] != ':',
        decreases len - j,
    {
        if chars[j] == ':' {
            assert(chars@.skip(n as int)[j - n] == ':');
            assert(chars@.skip(n as int).contains(':'));
            return None;
        }
        j = j + 1;
    }
    assert(!chars@.skip(n as int).contains(':')) by {
        if chars@.skip(n as int).contains(':') {
            let k = choose|k: int| 0 <= k < chars@.skip(n as int).len() && chars@.skip(n as int)[k] == ':';
            assert(chars@[n + k] == ':');
        }
    }
    let port = string_of(&chars, n, len);
    assert(chars@.subrange(n as int, len as int) =~= chars@.skip(n as int));
    assert(chars@.take(n as int) == beacon_prefix());
    let mut peer = str_concat(ip, ":");
    peer.append(port.as_str());
    proof {
        reveal_strlit(":");
        assert(peer@ =~= peer_address(ip@, chars@.skip(n as int)));
    }
    Some(peer)
}

/// The peer that a received datagram from `ip` names: the datagram is read
/// as text, ill-formed bytes replaced, then as an announcement.
pub fn peer_from_datagram(datagram: &[u8], ip: &str) -> (peer: Option<String>)
    ensures
        match beacon_port(lossy_utf8(datagram@)) {
            Some(port) => peer matches Some(p) && p@ == peer_address(ip@, port),
            None => peer is None,
        },
        valid_utf8(datagram@) ==> match beacon_port(decode_utf8(datagram@)) {
            Some(port) => peer matches Some(p) && p@ == peer_address(ip@, port),
            None => peer is None,
        },
{
    let msg = lossy_text(datagram);
    peer_from_beacon(msg.as_str(), ip)
}

/// The sender's address and the port text both stand whole in the peer
/// address, in that order, with one ':' between them.
pub proof fn law_peer_address_keeps_parts(ip: Seq<char>, port: Seq<char>)
    ensures
        peer_address(ip, port).len() == ip.len() + 1 + port.len(),
        peer_address(ip, port).take(ip.len() as int) == ip,
        peer_address(ip, port)[ip.len() as int] == ':',
        peer_address(ip, port).skip(ip.len() + 1int) == port,
{
    assert(peer_address(ip, port).take(ip.len() as int) =~= ip);
    assert(peer_address(ip, port).skip(ip.len() + 1int) =~= port);
}

/// A message is an announcement exactly when it is the prefix followed by a
/// port text without ':', and then that text is what it carries.
pub proof fn law_beacon_port_exact(msg: Seq<char>)
    ensures
        beacon_port(msg) matches Some(port) ==> msg == beacon_prefix() + port && !port.contains(
            ':',
        ),
        forall|port: Seq<char>|
            #![trigger beacon_prefix() + port]
            msg == beacon_prefix() + port && !port.contains(':') ==> beacon_port(msg) == Some(port),
{
    let n = beacon_prefix().len() as int;
    if beacon_port(msg) is Some {
        assert(msg =~= msg.take(n) + msg.skip(n));
    }
    assert forall|port: Seq<char>|
        #![trigger beacon_prefix() + port]
        msg == beacon_prefix() + port && !port.contains(':') implies beacon_port(msg) == Some(
        port,
    ) by {
        assert(msg.take(n) =~= beacon_prefix());
        assert(msg.skip(n) =~= port);
    }
}

/// An announcement names the port it was made for: the peer address read
/// back from `beacon_text(port)` is the sender's address with that port.
pub proof fn law_beacon_round_trip(port: u16)
    ensures
        beacon_port(beacon_text(port)) == Some(decimal(port as nat)),
{
    reveal_strlit("HELIOS_NODE:");
    let msg = beacon_text(port);
    let n = beacon_prefix().len();
    assert(msg.take(n as int) =~= beacon_prefix());
    assert(msg.skip(n as int) =~= decimal(port as nat));
    lemma_decimal_digits(port as nat);
    assert(!decimal(port as nat).contains(':')) by {
        if decimal(port as nat).contains(':') {
            let k = choose|k: int| 0 <= k < decimal(port as nat).len() && decimal(port as nat)[k] == ':';
            assert('0' <= decimal(port as nat)[k] <= '9');
        }
    }
}

/// An announcement sent as UTF-8 and received whole names its sender: the
/// datagram `encode_utf8(beacon_text(port))` is valid UTF-8 and reads back
/// as the port it was made for, so `peer_from_datagram` gives the sender's
/// address with that port.
pub proof fn law_datagram_round_trip(port: u16)
    ensures
        valid_utf8(encode_utf8(beacon_text(port))),
        beacon_port(decode_utf8(encode_utf8(beacon_text(port)))) == Some(decimal(port as nat)),
{
    encode_utf8_valid_utf8(beacon_text(port));
    encode_utf8_decode_utf8(beacon_text(port));
    law_beacon_round_trip(port);
}

} // verus!
