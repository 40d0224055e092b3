//! IPv4 addresses embedded in IPv6 addresses, as in RFC 6052.

use vstd::prelude::*;
use vstd::string::StringExecFns;
use crate::text::decimal;
use crate::text::u64_to_string;

verus! {

/// What can go wrong with a NAT64 address.
#[derive(Debug, Copy, Clone, Eq, PartialEq, Structural)]
pub enum Nat64Error {
    /// The prefix length is none of 32, 40, 48, 56, 64 and 96.
    InvalidPrefixLength(u8),
}

impl Nat64Error {
    /// The text of the error.
    pub open spec fn spec_to_string(self) -> Seq<char> {
        match self {
            Nat64Error::InvalidPrefixLength(length) => "Invalid prefix length: "@ + decimal(
                length as nat,
            ),
        }
    }

    /// The text of the error.
    pub fn to_string(&self) -> (text: String)
        ensures
            text@ == self.spec_to_string(),
    {
        match self {
            Nat64Error::InvalidPrefixLength(length) => {
                let mut text = String::from_str("Invalid prefix length: ");
                let number = u64_to_string(*length as u64);
                text.append(number.as_str());
                text
            },
        }
    }
}

/// The prefix lengths that a NAT64 prefix can have.
pub open spec fn valid_prefix_length(prefix_length: u8) -> bool {
    prefix_length == 32 || prefix_length == 40 || prefix_length == 48 || prefix_length == 56
        || prefix_length == 64 || prefix_length == 96
}

/// The place in the IPv6 address of octet `k` of the IPv4 address. The
/// IPv4 address follows the prefix; octet 8 of the IPv6 address is left
/// out, it belongs to neither.
pub open spec fn embedded_at(prefix_length: u8, k: int) -> int {
    let first = prefix_length as int / 8;
    if first <= 8 && first + k >= 8 {
        first + k + 1
    } else {
        first + k
    }
}

/// The IPv4 address that `ipv6` holds behind a prefix of `prefix_length`
/// bits.
pub open spec fn embedded_ipv4(prefix_length: u8, ipv6: Seq<u8>) -> Seq<u8> {
    Seq::new(4, |k: int| ipv6[embedded_at(prefix_length, k)])
}

/// Returns the IPv4 address that a NAT64 address embeds, as specified in
/// RFC 6052. Both addresses are given by their octets.
///
/// The NAT64 `prefix_length` MUST be one of the following values: 32, 40,
/// 48, 56, 64, or 96, otherwise the function returns
/// `Nat64Error::InvalidPrefixLength`
pub fn ipv4_extract_from_ipv6_address(prefix_length: u8, ipv6: &[u8; 16]) -> (r: Result<
    [u8; 4],
    Nat64Error,
>)
    ensures
        valid_prefix_length(prefix_length) ==> (r matches Ok(ipv4) && ipv4@ == embedded_ipv4(
            prefix_length,
            ipv6@,
        )),
        !valid_prefix_length(prefix_length) ==> r == Err::<[u8; 4], Nat64Error>(
            Nat64Error::InvalidPrefixLength(prefix_length),
        ),
{
    if !(prefix_length == 32 || prefix_length == 40 || prefix_length == 48 || prefix_length == 56
        || prefix_length == 64 || prefix_length == 96) {
        return Err(Nat64Error::InvalidPrefixLength(prefix_length));
    }
    let mut ipv4: [u8; 4] = [0, 0, 0, 0];
    let mut from: usize = (prefix_length / 8) as usize;
    let mut k: usize = 0;
    while k < 4
        invariant
            k <= 4,
            valid_prefix_length(prefix_length),
            from == (if k == 0 {
                prefix_length as int / 8
            } else {
                embedded_at(prefix_length, k - 1) + 1
            }),
            forall|j: int| 0 <= j < k ==> ipv4@[j] == ipv6@[embedded_at(prefix_length, j)],
        decreases 4 - k,
    {
        if from == 8 {
            from += 1;
        }
        ipv4[k] = ipv6[from];
        from += 1;
        k += 1;
    }
    assert(ipv4@ =~= embedded_ipv4(prefix_length, ipv6@));
    Ok(ipv4)
}

} // verus!
