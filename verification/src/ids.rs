use vstd::prelude::*;

verus! {

/// A fresh random identifier: `uuid::Uuid::new_v4()` in its hyphenated text form, which is
/// 36 characters long. Each call gives another value; nothing else is claimed of it.
#[verifier::external_body]
pub(crate) fn new_id() -> (id: String)
    ensures
        id@.len() == 36,
{
    uuid::Uuid::new_v4().to_string()
}

/// The current time as an RFC 3339 timestamp (`chrono::Utc::now().to_rfc3339()`). Which time
/// depends on the clock; claimed only that the text is not empty (an RFC 3339 timestamp
/// always holds a date).
#[verifier::external_body]
pub(crate) fn now_rfc3339() -> (s: String)
    ensures
        s@.len() > 0,
{
    chrono::Utc::now().to_rfc3339()
}

} // verus!
