//! Values derived from a summary for display: the common name of a
//! distinguished name, and whole days between two instants.

use vstd::prelude::*;

verus! {

/// The text that the first group of the regular expression `pattern`
/// captures on its first match in `text`; none where the pattern does not
/// compile, nothing matches, or the group takes no part in the match.
pub uninterp spec fn regex_first_group(pattern: Seq<char>, text: Seq<char>) -> Option<Seq<char>>;

/// The pattern whose group is the common name of a distinguished name.
pub const CN_PATTERN: &'static str = "CN=(.+)(?:,|$)";

/// Seconds in one day.
pub const SECS_PER_DAY: i64 = 86400;

/// Whole days in a signed number of seconds, rounded toward zero.
pub open spec fn whole_days(secs: int) -> int {
    if secs >= 0 {
        secs / (SECS_PER_DAY as int)
    } else {
        -((-secs) / (SECS_PER_DAY as int))
    }
}

/// Relies on `regex::Regex::new`, `Regex::captures` and `Captures::get` for
/// the text of the first group of the first match.
#[verifier::external_body]
fn first_group(pattern: &str, text: &str) -> (r: Option<String>)
    ensures
        r is Some <==> regex_first_group(pattern@, text@) is Some,
        r matches Some(c) ==> regex_first_group(pattern@, text@)->Some_0 == c@,
{
    let re = regex::Regex::new(pattern).ok()?;
    let caps = re.captures(text)?;
    caps.get(1).map(|m| m.as_str().to_string())
}

/// The common name in a distinguished name's text, where it has one.
pub fn common_name(subject: &str) -> (r: Option<String>)
    ensures
        r is Some <==> regex_first_group(CN_PATTERN@, subject@) is Some,
        r matches Some(c) ==> regex_first_group(CN_PATTERN@, subject@)->Some_0 == c@,
{
    first_group(CN_PATTERN, subject)
}

/// Whole days from `from` to `to`, both in seconds since the Unix epoch;
/// negative when `to` is earlier.
pub fn days_between(from: i64, to: i64) -> (r: i64)
    ensures
        r as int == whole_days(to as int - from as int),
{
    let d: i128 = to as i128 - from as i128;
    if d >= 0 {
        (d / (SECS_PER_DAY as i128)) as i64
    } else {
        let m: i128 = -d;
        -((m / (SECS_PER_DAY as i128)) as i64)
    }
}

} // verus!
