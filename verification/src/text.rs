//! Texts built from numbers: decimal notation, socket addresses, URLs.

use vstd::prelude::*;

verus! {

/// What a base URL of the service starts with.
pub const URL_SCHEME: &'static str = "http://";

/// The ten decimal digits.
pub open spec fn decimal_digits() -> Seq<char> {
    seq!['0', '1', '2', '3', '4', '5', '6', '7', '8', '9']
}

/// A number in decimal notation, without leading zeros.
pub open spec fn decimal_text(n: nat) -> Seq<char>
    decreases n,
{
    if n < 10 {
        seq![decimal_digits()[n as int]]
    } else {
        decimal_text(n / 10).push(decimal_digits()[(n % 10) as int])
    }
}

/// A host and a port as a socket address: the host, a colon, the port.
pub open spec fn socket_address_text(host: Seq<char>, port: u16) -> Seq<char> {
    host.push(':') + decimal_text(port as nat)
}

/// The base URL of a service that listens on `host` and `port`.
pub open spec fn base_url_text(host: Seq<char>, port: u16) -> Seq<char> {
    URL_SCHEME@ + socket_address_text(host, port)
}

/// `String::push` appends the character to the end of the string.
pub assume_specification[ String::push ](text: &mut String, c: char)
    ensures
        final(text)@ == old(text)@.push(c),
;

fn digit(d: u16) -> (c: char)
    requires
        d < 10,
    ensures
        c == decimal_digits()[d as int],
{
    match d {
        0 => '0',
        1 => '1',
        2 => '2',
        3 => '3',
        4 => '4',
        5 => '5',
        6 => '6',
        7 => '7',
        8 => '8',
        _ => '9',
    }
}

/// Appends `n` in decimal notation to `text`.
pub fn push_decimal(text: &mut String, n: u16)
    ensures
        final(text)@ == old(text)@ + decimal_text(n as nat),
    decreases n,
{
    if n >= 10 {
        push_decimal(text, n / 10);
    }
    text.push(digit(n % 10));
    assert(text@ =~= old(text)@ + decimal_text(n as nat));
}

/// The socket address of `host` and `port`, as a listener takes it.
pub fn socket_address(host: &str, port: u16) -> (text: String)
    ensures
        text@ == socket_address_text(host@, port),
{
    let mut text = host.to_owned();
    text.push(':');
    push_decimal(&mut text, port);
    text
}

/// The base URL under which a service bound to `host` and `port` is reached.
pub fn base_url(host: &str, port: u16) -> (text: String)
    ensures
        text@ == base_url_text(host@, port),
{
    let mut text = URL_SCHEME.to_owned();
    text.append(host);
    text.push(':');
    push_decimal(&mut text, port);
    assert(text@ =~= base_url_text(host@, port));
    text
}

} // verus!
