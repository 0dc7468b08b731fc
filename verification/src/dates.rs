//! The modification time of a listing entry, read with `dateparser` and printed with `chrono`.

use vstd::prelude::*;
use crate::numtext::{all_digits, is_digit};
use crate::zones::date_offset_unreadable;

verus! {

/// A date as `chrono` prints it with `%Y-%m-%d %H:%M:%S`: the year (four digits, or a sign
/// and at least four digits outside the years 0 to 9999), then `-MM-DD HH:MM:SS`.
pub open spec fn printed_date(t: Seq<char>) -> bool {
    let n = t.len();
    let head = t.take(n - 15);
    let tail = t.skip(n - 15);
    &&& n >= 19
    &&& tail[0] == '-'
    &&& is_digit(tail[1])
    &&& is_digit(tail[2])
    &&& tail[3] == '-'
    &&& is_digit(tail[4])
    &&& is_digit(tail[5])
    &&& tail[6] == ' '
    &&& is_digit(tail[7])
    &&& is_digit(tail[8])
    &&& tail[9] == ':'
    &&& is_digit(tail[10])
    &&& is_digit(tail[11])
    &&& tail[12] == ':'
    &&& is_digit(tail[13])
    &&& is_digit(tail[14])
    &&& ((head.len() == 4 && all_digits(head)) || (head.len() >= 5 && (head[0] == '+' || head[0]
        == '-') && all_digits(head.drop_first())))
}

/// Whether `outcome` is one that reading the date text `raw` with `dateparser` (in UTC) and
/// printing it with `chrono` as `%Y-%m-%d %H:%M:%S` can give: the printed date, or the `Debug`
/// text of the reading error. The outcomes depend on the text alone; which of them comes
/// depends on the clock where the text has no time of day.
pub uninterp spec fn date_reading(raw: Seq<char>, outcome: Result<Seq<char>, Seq<char>>) -> bool;

/// An outcome of reading a date, as character sequences.
pub open spec fn read_outcome(r: Result<String, String>) -> Result<Seq<char>, Seq<char>> {
    match r {
        Ok(t) => Ok(t@),
        Err(e) => Err(e@),
    }
}

/// `dateparser::parse_with_timezone(raw, &chrono::Utc)`, and, where that reads a date, the
/// date printed by `chrono::DateTime::format(pattern)`; a reading error is handed back as its
/// `Debug` text. (`chrono::DateTime` cannot be declared to the verifier, since its parameter is
/// bound by an outside trait, so the printing happens here too.) The outcome is one of those
/// `date_reading` names for `raw`; a printed date has the shape `printed_date` (chrono writes
/// the year with four digits, or with a sign outside the years 0 to 9999, and every other
/// field with two). Which outcome comes is left unsaid: for texts that give a date without a
/// time of day, `dateparser` takes the time of day from the clock. Only the pattern of the
/// listing is admitted, since printing a malformed pattern panics, and no text with an offset
/// that `dateparser` could read as 24 hours or more, since that panics in `chrono`.
#[verifier::external_body]
fn read_date(raw: &str, pattern: &str) -> (r: Result<String, String>)
    requires
        pattern@ == "%Y-%m-%d %H:%M:%S"@,
        !date_offset_unreadable(raw@),
    ensures
        date_reading(raw@, read_outcome(r)),
        r matches Ok(t) ==> printed_date(t@),
{
    match dateparser::parse_with_timezone(raw, &chrono::Utc) {
        Ok(d) => Ok(format!("{}", d.format(pattern))),
        Err(e) => Err(format!("{:?}", e)),
    }
}

/// The shape of a date field: a printed date, or `error <reason> date`.
pub open spec fn date_text_shape(t: Seq<char>) -> bool {
    printed_date(t) || ("error "@.is_prefix_of(t) && " date"@.is_suffix_of(t))
}

/// The text written for the date field of a record: the parsed date as printed, or, where the
/// date could not be read, `error <reason> date`.
pub open spec fn date_field_spec(parsed: Result<Seq<char>, Seq<char>>) -> Seq<char> {
    match parsed {
        Ok(t) => t,
        Err(e) => "error "@ + e + " date"@,
    }
}

/// Builds the date field from the outcome of reading the date: its printed text, or the
/// reason it could not be read.
pub fn date_field(parsed: Result<String, String>) -> (r: String)
    ensures
        r@ == date_field_spec(
            match parsed {
                Ok(t) => Ok::<Seq<char>, Seq<char>>(t@),
                Err(e) => Err::<Seq<char>, Seq<char>>(e@),
            },
        ),
{
    match parsed {
        Ok(t) => t,
        Err(e) => {
            let mut m = String::from_str("error ");
            m.append(e.as_str());
            m.append(" date");
            m
        },
    }
}

/// The date fields that the raw date text `raw` can give: `date_field_spec` of an outcome that
/// reading `raw` can give, a printed date having the printed shape.
pub open spec fn date_field_for(raw: Seq<char>, d: Seq<char>) -> bool {
    exists|o: Result<Seq<char>, Seq<char>>|
        #![trigger date_reading(raw, o)]
        {
            &&& date_reading(raw, o)
            &&& (o matches Ok(t) ==> printed_date(t))
            &&& d == date_field_spec(o)
        }
}

/// The date field for the raw date text of a listing entry: the date read by `dateparser`
/// (in UTC) and printed as `%Y-%m-%d %H:%M:%S`, or `error <reason> date`. Which of the
/// outcomes for `raw` comes depends on the clock for some texts.
pub fn listing_date_text(raw: &str) -> (r: String)
    requires
        !date_offset_unreadable(raw@),
    ensures
        date_field_for(raw@, r@),
        date_text_shape(r@),
{
    let parsed = read_date(raw, "%Y-%m-%d %H:%M:%S");
    let ghost o = read_outcome(parsed);
    let r = date_field(parsed);
    proof {
        assert(r@ == date_field_spec(o));
        assert(date_reading(raw@, o));
        match o {
            Ok(t) => {},
            Err(e) => {
                reveal_strlit("error ");
                reveal_strlit(" date");
                let f = "error "@ + e + " date"@;
                assert(f.subrange(0, 6) =~= "error "@);
                assert(f.subrange(f.len() - 5, f.len() as int) =~= " date"@);
            },
        }
    }
    r
}

} // verus!
