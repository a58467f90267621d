//! UTC timestamps as the record format stores them.
use vstd::prelude::*;
use crate::text::{chars_of, push_all};

verus! {

/// The instant that chrono reads from `s`, as whole seconds since the Unix
/// epoch and the nanoseconds past them; `None` if chrono does not read `s`.
pub uninterp spec fn utc_instant(s: Seq<char>) -> Option<(i64, u32)>;

/// Relies on `str::parse::<chrono::DateTime<chrono::Utc>>` (chrono's relaxed
/// RFC 3339 reader), with `DateTime::timestamp` and
/// `DateTime::timestamp_subsec_nanos` giving the instant read; the answer
/// depends on the text alone.
#[verifier::external_body]
fn parse_utc(s: &str) -> (r: Option<(i64, u32)>)
    ensures
        r == utc_instant(s@),
{
    match s.parse::<chrono::DateTime<chrono::Utc>>() {
        Ok(t) => Some((t.timestamp(), t.timestamp_subsec_nanos())),
        Err(_) => None,
    }
}

/// The number of seconds in a day.
pub const SECONDS_PER_DAY: i64 = 86400;

/// Relies on `chrono::Utc::now` and chrono's `Display` for `DateTime<Utc>`:
/// the current time as text. Nothing is promised of the text.
#[verifier::external_body]
fn utc_now_text() -> (r: String) {
    chrono::Utc::now().to_string()
}

/// Text that can stand in a record field as a timestamp: chrono reads it,
/// and it holds neither the field separator nor a line break.
pub open spec fn valid_timestamp(s: Seq<char>) -> bool {
    &&& utc_instant(s) is Some
    &&& !s.contains('|')
    &&& !s.contains('\n')
}

/// The UTC calendar day of a valid timestamp, counted from the Unix epoch.
pub open spec fn day_number(s: Seq<char>) -> int {
    match utc_instant(s) {
        Some((seconds, _)) => seconds as int / SECONDS_PER_DAY as int,
        None => 0,
    }
}

/// A UTC date and time with sub-second precision, held as the text that
/// names it together with the instant that chrono reads from it.
#[derive(Debug)]
pub struct Timestamp {
    text: String,
    seconds: i64,
    nanos: u32,
}

impl View for Timestamp {
    type V = Seq<char>;

    closed spec fn view(&self) -> Seq<char> {
        self.text@
    }
}

impl Timestamp {
    pub closed spec fn wf(&self) -> bool {
        &&& valid_timestamp(self@)
        &&& utc_instant(self@) == Some((self.seconds, self.nanos))
    }

    pub proof fn lemma_wf(&self)
        requires
            self.wf(),
        ensures
            valid_timestamp(self@),
    {
    }

    /// The timestamp that `s` names; `None` unless `s` is a valid timestamp.
    pub fn parse(s: &str) -> (r: Option<Timestamp>)
        ensures
            r is Some <==> valid_timestamp(s@),
            r matches Some(t) ==> t@ == s@ && t.wf(),
    {
        let cs = chars_of(s);
        let mut i: usize = 0;
        while i < cs.len()
            invariant
                i <= cs@.len(),
                cs@ == s@,
                forall|k: int| 0 <= k < i ==> cs@[k] != '|' && cs@[k] != '\n',
            decreases cs@.len() - i,
        {
            if cs[i] == '|' || cs[i] == '\n' {
                assert(s@[i as int] == cs@[i as int]);
                return None;
            }
            i += 1;
        }
        let (seconds, nanos) = match parse_utc(s) {
            Some(instant) => instant,
            None => return None,
        };
        let mut text = String::new();
        push_all(&mut text, s);
        proof {
            assert(text@ =~= s@);
        }
        Some(Timestamp { text, seconds, nanos })
    }

    /// The current time, when the clock's text is a valid timestamp.
    pub fn now() -> (r: Option<Timestamp>)
        ensures
            r matches Some(t) ==> t.wf(),
    {
        let text = utc_now_text();
        Timestamp::parse(text.as_str())
    }

    /// Another timestamp naming the same instant.
    pub fn duplicate(&self) -> (r: Timestamp)
        ensures
            r@ == self@,
            self.wf() ==> r.wf(),
    {
        let mut text = String::new();
        push_all(&mut text, self.text.as_str());
        proof {
            assert(text@ =~= self.text@);
        }
        Timestamp { text, seconds: self.seconds, nanos: self.nanos }
    }

    /// The UTC calendar day, counted from the Unix epoch.
    pub fn day(&self) -> (r: i64)
        requires
            self.wf(),
        ensures
            r == day_number(self@),
    {
        if self.seconds >= 0 {
            self.seconds / SECONDS_PER_DAY
        } else {
            let r = -((-(self.seconds + 1)) / SECONDS_PER_DAY) - 1;
            proof {
                let s = self.seconds as int;
                let q = (-(s + 1)) / 86400;
                assert(r == -q - 1);
                assert(s / 86400 == -q - 1) by (nonlinear_arith)
                    requires
                        s < 0,
                        q == (-(s + 1)) / 86400,
                {
                }
            }
            r
        }
    }

    /// The text that names this timestamp.
    pub fn as_str(&self) -> (r: &str)
        ensures
            r@ == self@,
    {
        self.text.as_str()
    }
}

} // verus!
