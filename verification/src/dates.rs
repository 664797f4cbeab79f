use vstd::prelude::*;

verus! {

/// What the date parser makes of a date argument: the instant, in
/// milliseconds since the Unix epoch, of UTC midnight of the given
/// `YYYY-MM-DD` day, or nothing when the text is not such a date. The
/// outcome is a function of the text alone.
pub uninterp spec fn date_value_of(s: Seq<char>) -> Option<i64>;

/// Relies on chrono's `DateTime<Utc>` parser, handed the argument followed
/// by an explicit UTC-midnight time part, as the one reading of a date
/// argument: whether and as what instant the text parses depends on the
/// text alone.
#[verifier::external_body]
pub(crate) fn parse_date_millis(date_str: &str) -> (r: Option<i64>)
    ensures
        r == date_value_of(date_str@),
{
    let full = String::from(date_str) + " 00:00:00.000 +0000";
    match full.parse::<chrono::DateTime<chrono::Utc>>() {
        Ok(d) => Some(d.timestamp_millis()),
        Err(_) => None,
    }
}

/// Relies on chrono's `Utc::now` for creation timestamps; nothing is
/// assumed about the instant it reports.
#[verifier::external_body]
pub(crate) fn now_millis() -> i64 {
    chrono::Utc::now().timestamp_millis()
}

} // verus!
