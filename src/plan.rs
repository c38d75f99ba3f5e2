//! Turning a load request into a listing request: the table prefix, the
//! date-partition cursor that the listing starts after, and the window.

use crate::discovery::{key_views, LoadParquetFilesPayload, Timestamp};
use aws_smithy_types::date_time::{DateTimeParseError, Format};
use aws_smithy_types::DateTime;
use chrono::{Datelike, NaiveDate, ParseError};
use vstd::prelude::*;

verus! {

#[verifier::external_type_specification]
#[verifier::external_body]
pub struct ExParseError(ParseError);

#[verifier::external_type_specification]
#[verifier::external_body]
pub struct ExDateTimeParseError(DateTimeParseError);

/// The calendar date (year, month, day) that a `YYYY-MM-DDTHH:MM:SSZ`
/// string names, if it names one.
pub uninterp spec fn calendar_date_of(s: Seq<char>) -> Option<(i32, u32, u32)>;

/// The point in time that an RFC 3339 string (offsets allowed) names, if it
/// names one.
pub uninterp spec fn instant_of(s: Seq<char>) -> Option<(i64, u32)>;

/// The timestamp of whole seconds and nanoseconds.
pub open spec fn timestamp_of(t: (i64, u32)) -> Timestamp {
    Timestamp { secs: t.0, nanos: t.1 }
}

/// Relies on `chrono::NaiveDate::parse_from_str` with the format
/// `%Y-%m-%dT%H:%M:%SZ`, and on `Datelike::month` (1 to 12) and
/// `Datelike::day` (1 to 31).
#[verifier::external_body]
fn parse_calendar_date(s: &str) -> (r: Result<(i32, u32, u32), ParseError>)
    ensures
        match r {
            Ok(d) => calendar_date_of(s@) == Some(d) && 1 <= d.1 <= 12 && 1 <= d.2 <= 31,
            Err(_) => calendar_date_of(s@) is None,
        },
{
    NaiveDate::parse_from_str(s, "%Y-%m-%dT%H:%M:%SZ").map(|d| (d.year(), d.month(), d.day()))
}

/// Relies on `aws_smithy_types::DateTime::from_str` with
/// `Format::DateTimeWithOffset`, read back through `secs` and
/// `subsec_nanos`.
#[verifier::external_body]
fn parse_instant(s: &str) -> (r: Result<Timestamp, DateTimeParseError>)
    ensures
        match r {
            Ok(t) => instant_of(s@) == Some((t.secs, t.nanos)),
            Err(_) => instant_of(s@) is None,
        },
{
    DateTime::from_str(s, Format::DateTimeWithOffset).map(
        |t| Timestamp { secs: t.secs(), nanos: t.subsec_nanos() },
    )
}

/// Why a load request could not be planned.
#[derive(Clone, Copy, PartialEq, Eq, Structural, Debug)]
pub enum DiscoveryError {
    /// The start of the window is not a timestamp.
    InvalidStartDate,
    /// The end of the window is not a timestamp.
    InvalidStopDate,
}

/// The character of a decimal digit.
pub open spec fn digit_char(d: nat) -> char {
    if d == 0 {
        '0'
    } else if d == 1 {
        '1'
    } else if d == 2 {
        '2'
    } else if d == 3 {
        '3'
    } else if d == 4 {
        '4'
    } else if d == 5 {
        '5'
    } else if d == 6 {
        '6'
    } else if d == 7 {
        '7'
    } else if d == 8 {
        '8'
    } else {
        '9'
    }
}

/// The decimal digits of `n`, without leading zeros.
pub open spec fn decimal(n: nat) -> Seq<char>
    decreases n,
{
    if n < 10 {
        seq![digit_char(n)]
    } else {
        decimal(n / 10).push(digit_char(n % 10))
    }
}

/// `n` in decimal, with a minus sign when it is negative.
pub open spec fn signed_decimal(n: int) -> Seq<char> {
    if n < 0 {
        seq!['-'] + decimal((-n) as nat)
    } else {
        decimal(n as nat)
    }
}

/// `n` in decimal with at least two digits.
pub open spec fn two_digits(n: nat) -> Seq<char> {
    if n < 10 {
        seq!['0'] + decimal(n)
    } else {
        decimal(n)
    }
}

fn digit_str(d: u64) -> (r: &'static str)
    requires
        d < 10,
    ensures
        r@ == seq![digit_char(d as nat)],
{
    proof {
        reveal_strlit("0");
        reveal_strlit("1");
        reveal_strlit("2");
        reveal_strlit("3");
        reveal_strlit("4");
        reveal_strlit("5");
        reveal_strlit("6");
        reveal_strlit("7");
        reveal_strlit("8");
        reveal_strlit("9");
    }
    if d == 0 {
        "0"
    } else if d == 1 {
        "1"
    } else if d == 2 {
        "2"
    } else if d == 3 {
        "3"
    } else if d == 4 {
        "4"
    } else if d == 5 {
        "5"
    } else if d == 6 {
        "6"
    } else if d == 7 {
        "7"
    } else if d == 8 {
        "8"
    } else {
        "9"
    }
}

/// Appends the decimal digits of `n`.
fn push_decimal(out: &mut String, n: u64)
    ensures
        final(out)@ == old(out)@ + decimal(n as nat),
    decreases n,
{
    if n < 10 {
        out.append(digit_str(n));
    } else {
        push_decimal(out, n / 10);
        out.append(digit_str(n % 10));
        assert(decimal(n as nat) == decimal((n / 10) as nat).push(digit_char((n % 10) as nat)));
    }
}

/// Appends `n` in decimal, with a minus sign when it is negative.
fn push_signed_decimal(out: &mut String, n: i32)
    ensures
        final(out)@ == old(out)@ + signed_decimal(n as int),
{
    if n < 0 {
        proof {
            reveal_strlit("-");
        }
        out.append("-");
        let m: i64 = -(n as i64);
        push_decimal(out, m as u64);
    } else {
        push_decimal(out, n as u64);
    }
}

/// Appends `n` in decimal with at least two digits.
fn push_two_digits(out: &mut String, n: u32)
    ensures
        final(out)@ == old(out)@ + two_digits(n as nat),
{
    if n < 10 {
        out.append(digit_str(0));
    }
    push_decimal(out, n as u64);
}

/// `<s3_prefix>/<database>/<schema>/<table>`: where the files of a table
/// live.
pub open spec fn table_prefix(
    s3_prefix: Seq<char>,
    database_name: Seq<char>,
    schema_name: Seq<char>,
    table_name: Seq<char>,
) -> Seq<char> {
    s3_prefix + seq!['/'] + database_name + seq!['/'] + schema_name + seq!['/'] + table_name
}

/// `<table prefix>/<year>/<MM>/<DD>/`: the partition of the start day, which
/// the listing starts after.
pub open spec fn partition_cursor(prefix: Seq<char>, day: (i32, u32, u32)) -> Seq<char> {
    prefix + seq!['/'] + signed_decimal(day.0 as int) + seq!['/'] + two_digits(day.1 as nat)
        + seq!['/'] + two_digits(day.2 as nat) + seq!['/']
}

/// One paginated listing to run: under `prefix_path`, after `start_after`,
/// keeping the change files modified inside the window from `start` to
/// `stop`.
pub struct ListingRequest {
    pub bucket_name: String,
    pub prefix_path: String,
    pub start_after: String,
    pub start: Timestamp,
    pub stop: Option<Timestamp>,
}

impl ListingRequest {
    /// The request is the one for this table, start day and window.
    pub open spec fn is_for(
        &self,
        bucket_name: Seq<char>,
        prefix: Seq<char>,
        day: (i32, u32, u32),
        start: Timestamp,
        stop: Option<Timestamp>,
    ) -> bool {
        &&& self.bucket_name@ == bucket_name
        &&& self.prefix_path@ == prefix + seq!['/']
        &&& self.start_after@ == partition_cursor(prefix, day)
        &&& self.start == start
        &&& self.stop == stop
    }
}

/// Builds the listing request of a table from its coordinates, the start
/// day and the window.
pub fn listing_request(
    bucket_name: String,
    s3_prefix: &str,
    database_name: &str,
    schema_name: &str,
    table_name: &str,
    day: (i32, u32, u32),
    start: Timestamp,
    stop: Option<Timestamp>,
) -> (r: ListingRequest)
    ensures
        r.is_for(
            bucket_name@,
            table_prefix(s3_prefix@, database_name@, schema_name@, table_name@),
            day,
            start,
            stop,
        ),
{
    proof {
        reveal_strlit("/");
        assert("/"@ =~= seq!['/']);
    }
    let mut prefix = String::from_str(s3_prefix);
    prefix.append("/");
    prefix.append(database_name);
    prefix.append("/");
    prefix.append(schema_name);
    prefix.append("/");
    prefix.append(table_name);
    let mut cursor = prefix.clone();
    cursor.append("/");
    push_signed_decimal(&mut cursor, day.0);
    cursor.append("/");
    push_two_digits(&mut cursor, day.1);
    cursor.append("/");
    push_two_digits(&mut cursor, day.2);
    cursor.append("/");
    let mut prefix_path = prefix;
    prefix_path.append("/");
    ListingRequest { bucket_name, prefix_path, start_after: cursor, start, stop }
}

/// What discovery does for a request: run a listing, or take the given
/// files as they are.
pub enum ListingPlan {
    List(ListingRequest),
    Fixed(Vec<String>),
}

/// Plans the discovery of the files of a load request. A single key is
/// taken as it is; a table's files are listed from the day of `start_date`
/// on, with the window from `start_date` to `stop_date`.
pub fn plan_listing(payload: LoadParquetFilesPayload) -> (r: Result<ListingPlan, DiscoveryError>)
    ensures
        match payload {
            LoadParquetFilesPayload::AbsolutePath(key) => r matches Ok(ListingPlan::Fixed(v))
                && key_views(v@) == seq![key@],
            LoadParquetFilesPayload::DateAware {
                bucket_name,
                s3_prefix,
                database_name,
                schema_name,
                table_name,
                start_date,
                stop_date,
            } => {
                let prefix = table_prefix(s3_prefix@, database_name@, schema_name@, table_name@);
                match (calendar_date_of(start_date@), instant_of(start_date@)) {
                    (Some(day), Some(start)) => match stop_date {
                        None => r matches Ok(ListingPlan::List(q)) && q.is_for(
                            bucket_name@,
                            prefix,
                            day,
                            timestamp_of(start),
                            None,
                        ),
                        Some(s) => match instant_of(s@) {
                            Some(stop) => r matches Ok(ListingPlan::List(q)) && q.is_for(
                                bucket_name@,
                                prefix,
                                day,
                                timestamp_of(start),
                                Some(timestamp_of(stop)),
                            ),
                            None => r == Err::<ListingPlan, DiscoveryError>(
                                DiscoveryError::InvalidStopDate,
                            ),
                        },
                    },
                    _ => r == Err::<ListingPlan, DiscoveryError>(DiscoveryError::InvalidStartDate),
                }
            },
        },
{
    match payload {
        LoadParquetFilesPayload::AbsolutePath(key) => {
            let mut v: Vec<String> = Vec::new();
            v.push(key);
            assert(key_views(v@) =~= seq![key@]);
            Ok(ListingPlan::Fixed(v))
        },
        LoadParquetFilesPayload::DateAware {
            bucket_name,
            s3_prefix,
            database_name,
            schema_name,
            table_name,
            start_date,
            stop_date,
        } => {
            let day = match parse_calendar_date(start_date.as_str()) {
                Ok(d) => d,
                Err(_) => {
                    return Err(DiscoveryError::InvalidStartDate);
                },
            };
            let start = match parse_instant(start_date.as_str()) {
                Ok(t) => t,
                Err(_) => {
                    return Err(DiscoveryError::InvalidStartDate);
                },
            };
            let stop = match stop_date {
                None => None,
                Some(s) => match parse_instant(s.as_str()) {
                    Ok(t) => Some(t),
                    Err(_) => {
                        return Err(DiscoveryError::InvalidStopDate);
                    },
                },
            };
            Ok(
                ListingPlan::List(
                    listing_request(
                        bucket_name,
                        s3_prefix.as_str(),
                        database_name.as_str(),
                        schema_name.as_str(),
                        table_name.as_str(),
                        day,
                        start,
                        stop,
                    ),
                ),
            )
        },
    }
}

} // verus!
