//! Fresh identifiers drawn from the system's random source.

use crate::text;
use vstd::prelude::*;

verus! {

/// Whether `c` is a decimal digit or one of the letters `a` to `f`.
pub open spec fn is_lower_hex(c: char) -> bool {
    ('0' <= c && c <= '9') || ('a' <= c && c <= 'f')
}

/// Whether `s` has the shape of a version-4 UUID written in lower case with
/// hyphens: 36 characters, hyphens after the 8th, 12th, 16th and 20th digit,
/// hexadecimal digits elsewhere, and `4` as the 13th digit.
pub open spec fn is_uuid_text(s: Seq<char>) -> bool {
    &&& s.len() == 36
    &&& forall|i: int|
        0 <= i < 36 ==> if i == 8 || i == 13 || i == 18 || i == 23 {
            #[trigger] s[i] == '-'
        } else {
            is_lower_hex(#[trigger] s[i])
        }
    &&& s[14] == '4'
}

/// A new random UUID as text.
///
/// Trusted: the body calls `uuid::Uuid::new_v4` and writes the outcome with
/// its `Display` impl, which gives the hyphenated lower-case form. The
/// contract claims that shape and nothing of the digits, which differ from
/// call to call. The call fails where the system has no random source.
#[verifier::external_body]
pub(crate) fn fresh_uuid() -> (r: String)
    ensures
        is_uuid_text(r@),
{
    uuid::Uuid::new_v4().to_string()
}

/// A random 32-bit number.
///
/// Trusted: the body calls `rand::random::<u32>`. Nothing is claimed of the
/// number. The call fails where the system has no random source.
#[verifier::external_body]
pub(crate) fn random_u32() -> u32 {
    rand::random::<u32>()
}

/// The id of the client that drew `n`: `user-` and the decimal numeral of
/// `n`.
pub open spec fn client_id_text(n: u32) -> Seq<char> {
    "user-"@ + text::decimal_digits(n as nat)
}

/// Two numbers with the same client id are the same number.
pub proof fn lemma_client_id_injective(n: u32, m: u32)
    requires
        client_id_text(n) == client_id_text(m),
    ensures
        n == m,
{
    let prefix = "user-"@;
    let a = text::decimal_digits(n as nat);
    let b = text::decimal_digits(m as nat);
    assert((prefix + a).skip(prefix.len() as int) =~= a);
    assert((prefix + b).skip(prefix.len() as int) =~= b);
    text::lemma_decimal_injective(n as nat, m as nat);
}

/// The id of the client that drew `n`.
pub fn client_id_for(n: u32) -> (r: String)
    ensures
        r@ == client_id_text(n),
{
    let digits = text::decimal(n);
    text::joined("user-", digits.as_str())
}

} // verus!
