//! Hardware addresses: how one is looked up for an interface, and the text
//! that stands for the outcome in a device record.

use vstd::prelude::*;

verus! {

/// Text of a device's hardware field when the system reports no address.
pub const NO_MAC_TEXT: &'static str = "No MAC address found";

/// What precedes the system's message when the lookup itself failed.
pub const LOOKUP_ERROR_PREFIX: &'static str = "Error: ";

/// Outcome of asking the system for the hardware address of one interface.
#[derive(Debug, PartialEq, Eq)]
pub enum MacLookup {
    /// The interface has this address.
    Found([u8; 6]),
    /// The system knows no hardware address for the interface.
    Missing,
    /// The lookup failed; the text is the system's message.
    Failed(String),
}

/// The sixteen hexadecimal digits, capitals for ten to fifteen.
pub open spec fn hex_digits() -> Seq<char> {
    seq!['0', '1', '2', '3', '4', '5', '6', '7', '8', '9', 'A', 'B', 'C', 'D', 'E', 'F']
}

/// One octet as two hexadecimal digits, the high one first.
pub open spec fn octet_text(octet: u8) -> Seq<char> {
    seq![hex_digits()[octet as int / 16], hex_digits()[octet as int % 16]]
}

/// Six octets in the usual notation: two digits each, colons between them.
pub open spec fn mac_text(octets: Seq<u8>) -> Seq<char> {
    octet_text(octets[0]) + seq![':'] + octet_text(octets[1]) + seq![':'] + octet_text(octets[2])
        + seq![':'] + octet_text(octets[3]) + seq![':'] + octet_text(octets[4]) + seq![':']
        + octet_text(octets[5])
}

/// The text that a lookup's outcome leaves in a device's hardware field.
pub open spec fn lookup_text(lookup: MacLookup) -> Seq<char> {
    match lookup {
        MacLookup::Found(octets) => mac_text(octets@),
        MacLookup::Missing => NO_MAC_TEXT@,
        MacLookup::Failed(message) => LOOKUP_ERROR_PREFIX@ + message@,
    }
}

/// Calls `mac_address::MacAddress::new` and the address's `Display` impl.
/// Trusted: the text is the six octets as two capital hexadecimal digits
/// each, zero-padded, with a colon between neighbours.
#[verifier::external_body]
fn format_mac(octets: [u8; 6]) -> (text: String)
    ensures
        text@ == mac_text(octets@),
{
    mac_address::MacAddress::new(octets).to_string()
}

/// Calls `mac_address::mac_address_by_name` and hands its three outcomes on:
/// the address's octets, no address, or the error's message. Nothing is
/// promised of which one comes back: that depends on the machine.
#[verifier::external_body]
pub(crate) fn lookup_by_name(name: &str) -> (lookup: MacLookup) {
    match mac_address::mac_address_by_name(name) {
        Ok(Some(mac)) => MacLookup::Found(mac.bytes()),
        Ok(None) => MacLookup::Missing,
        Err(error) => MacLookup::Failed(error.to_string()),
    }
}

/// The text for a device's hardware field: the address in the usual
/// notation, the fixed text for a missing address, or the failure's message
/// behind its prefix.
pub fn mac_field(lookup: &MacLookup) -> (text: String)
    ensures
        text@ == lookup_text(*lookup),
{
    match lookup {
        MacLookup::Found(octets) => format_mac(*octets),
        MacLookup::Missing => NO_MAC_TEXT.to_owned(),
        MacLookup::Failed(message) => LOOKUP_ERROR_PREFIX.to_owned().concat(message.as_str()),
    }
}

/// Different addresses have different texts, so comparing texts compares addresses.
pub proof fn lemma_mac_text_injective(a: Seq<u8>, b: Seq<u8>)
    requires
        a.len() == 6,
        b.len() == 6,
        mac_text(a) == mac_text(b),
    ensures
        a == b,
{
    let (s, t) = (mac_text(a), mac_text(b));
    assert(s[0] == t[0] && s[1] == t[1]);
    assert(s[3] == t[3] && s[4] == t[4]);
    assert(s[6] == t[6] && s[7] == t[7]);
    assert(s[9] == t[9] && s[10] == t[10]);
    assert(s[12] == t[12] && s[13] == t[13]);
    assert(s[15] == t[15] && s[16] == t[16]);
    lemma_octet_text_injective(a[0], b[0]);
    lemma_octet_text_injective(a[1], b[1]);
    lemma_octet_text_injective(a[2], b[2]);
    lemma_octet_text_injective(a[3], b[3]);
    lemma_octet_text_injective(a[4], b[4]);
    lemma_octet_text_injective(a[5], b[5]);
    assert(a =~= b);
}

/// Different octets have different texts.
pub proof fn lemma_octet_text_injective(a: u8, b: u8)
    requires
        octet_text(a)[0] == octet_text(b)[0],
        octet_text(a)[1] == octet_text(b)[1],
    ensures
        a == b,
{
    let digits = hex_digits();
    assert forall|m: int, n: int| 0 <= m < 16 && 0 <= n < 16 && digits[m] == digits[n] implies m
        == n by {}
    assert(a as int / 16 == b as int / 16);
    assert(a as int % 16 == b as int % 16);
}

/// The text of an address is never the text for a missing address.
pub proof fn lemma_found_differs_from_missing(octets: Seq<u8>)
    ensures
        mac_text(octets) != NO_MAC_TEXT@,
{
    reveal_strlit("No MAC address found");
    assert(NO_MAC_TEXT@.len() == 20);
}

} // verus!
