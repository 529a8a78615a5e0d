//! Fresh identifiers (`uuid`) and timestamps (`chrono`).

use vstd::prelude::*;

verus! {

#[verifier::external_type_specification]
#[verifier::external_body]
pub struct ExUuid(uuid::Uuid);

/// `uuid::Uuid::new_v4`: a random identifier; nothing is claimed of it.
#[verifier::external_body]
fn random_uuid() -> uuid::Uuid {
    uuid::Uuid::new_v4()
}

/// The hyphenated lower-case form of an identifier: 36 characters, `-` at
/// positions 8, 13, 18 and 23, a lower-case hexadecimal digit elsewhere.
pub open spec fn is_hyphenated_id(s: Seq<char>) -> bool {
    &&& s.len() == 36
    &&& forall|i: int| 0 <= i < 36 ==> if i == 8 || i == 13 || i == 18 || i == 23 {
        #[trigger] s[i] == '-'
    } else {
        ('0' <= s[i] <= '9') || ('a' <= s[i] <= 'f')
    }
}

/// `Uuid`'s `Display` (`to_string`): the crate writes the hyphenated form
/// with lower-case hexadecimal digits (`format_hyphenated`). The contract
/// claims that shape, not which digits.
#[verifier::external_body]
fn uuid_text(u: &uuid::Uuid) -> (s: String)
    ensures
        is_hyphenated_id(s@),
{
    u.to_string()
}

/// A fresh random identifier in hyphenated form.
pub fn new_id() -> (s: String)
    ensures
        is_hyphenated_id(s@),
{
    let u = random_uuid();
    uuid_text(&u)
}

/// A UTC timestamp as `now_iso` writes it: not empty, ending in `Z`.
pub open spec fn is_utc_timestamp(s: Seq<char>) -> bool {
    s.len() > 0 && s.last() == 'Z'
}

/// The current time as RFC 3339 text in UTC with milliseconds:
/// `chrono::Utc::now()` formatted by `to_rfc3339_opts(Millis, true)`.
/// chrono writes the UTC offset as `Z` when asked to (`allow_zulu`), so the
/// text ends in `Z`; which time it holds depends on the clock and is not
/// claimed.
#[verifier::external_body]
pub fn now_iso() -> (t: String)
    ensures
        is_utc_timestamp(t@),
{
    chrono::Utc::now().to_rfc3339_opts(chrono::SecondsFormat::Millis, true)
}

} // verus!
