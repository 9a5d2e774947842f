//! The form in which an instant is handed to a store that keeps text.

use vstd::prelude::*;
use vstd::std_specs::convert::FromSpecImpl;

use crate::time::Instant;

verus! {

/// An instant on its way into a store.
#[derive(Clone, Copy, Debug, Hash, Eq, PartialEq)]
pub struct DateTimeValue<'a>(pub &'a Instant);

impl<'a> From<&'a Instant> for DateTimeValue<'a> {
    fn from(instant: &'a Instant) -> (value: Self) {
        Self(instant)
    }
}

impl<'a> FromSpecImpl<&'a Instant> for DateTimeValue<'a> {
    open spec fn obeys_from_spec() -> bool {
        true
    }

    open spec fn from_spec(instant: &'a Instant) -> Self {
        DateTimeValue(instant)
    }
}

/// The RFC 3339 text, at offset `+00:00`, of the instant `nanos` nanoseconds
/// after the second `secs` of the Unix epoch; `None` for an instant that the
/// calendar in use cannot tell.
pub uninterp spec fn rfc3339_utc(secs: int, nanos: int) -> Option<Seq<char>>;

/// `chrono::DateTime::<Utc>::from_timestamp`, and `DateTime::to_rfc3339` on
/// what it returns. The first gives no date for seconds out of its range and
/// for nanoseconds that do not belong to the second; the second writes date,
/// time and offset as text. Both depend on their arguments alone, and all
/// that is claimed is that the result is that function of the two numbers.
#[verifier::external_body]
fn utc_text(secs: i64, nanos: u32) -> (text: Option<String>)
    ensures
        match text {
            Some(written) => rfc3339_utc(secs as int, nanos as int) == Some(written@),
            None => rfc3339_utc(secs as int, nanos as int) is None,
        },
{
    match chrono::DateTime::from_timestamp(secs, nanos) {
        Some(at) => Some(at.to_rfc3339()),
        None => None,
    }
}

impl<'a> DateTimeValue<'a> {
    /// The instant as RFC 3339 text in UTC, which is what the store keeps;
    /// `None` for an instant that has no such text.
    pub fn text(&self) -> (text: Option<String>)
        ensures
            match text {
                Some(written) => rfc3339_utc(self.0.secs as int, self.0.nanos as int) == Some(
                    written@,
                ),
                None => rfc3339_utc(self.0.secs as int, self.0.nanos as int) is None,
            },
    {
        utc_text(self.0.secs, self.0.nanos)
    }
}

} // verus!
