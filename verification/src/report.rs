//! The message that carries a reading to the message sink: its topic and
//! its payload.

use crate::clock::{stamp_format, strftime_text, utc_stamp, STAMP_MAX_MICROS};
use crate::decoder::{Parsed, Reading};
use vstd::prelude::*;
use vstd::string::StringExecFns;

verus! {

/// The character of a decimal digit.
pub open spec fn digit(d: int) -> char {
    if d == 0 {
        '0'
    } else if d == 1 {
        '1'
    } else if d == 2 {
        '2'
    } else if d == 3 {
        '3'
    } else if d == 4 {
        '4'
    } else if d == 5 {
        '5'
    } else if d == 6 {
        '6'
    } else if d == 7 {
        '7'
    } else if d == 8 {
        '8'
    } else {
        '9'
    }
}

/// A natural number in decimal, without leading zeros.
pub open spec fn digits(n: nat) -> Seq<char>
    decreases n,
{
    if n < 10 {
        seq![digit(n as int)]
    } else {
        digits(n / 10).push(digit((n % 10) as int))
    }
}

/// An integer in decimal, with a minus sign where it is below zero.
pub open spec fn decimal(v: int) -> Seq<char> {
    if v < 0 {
        seq!['-'] + digits((-v) as nat)
    } else {
        digits(v as nat)
    }
}

/// The mark of a temperature below zero.
pub open spec fn sign_text(sign: int) -> Seq<char> {
    if sign < 0 {
        seq!['-']
    } else {
        Seq::empty()
    }
}

/// The topic under which readings of a sensor model are published.
pub open spec fn topic_text(model: Seq<char>) -> Seq<char> {
    "sensors/"@ + model
}

/// The payload for a reading taken at the time written as `time`.
pub open spec fn payload_text(time: Seq<char>, reading: Reading) -> Seq<char> {
    "{\"time\" : \""@ + time + "\", \"model\" : \""@ + reading.model_name() + "\", \"id\" : "@
        + decimal(reading.id) + ", \"channel\" : "@ + decimal(reading.channel)
        + ", \"battery_ok\" : "@ + decimal(reading.battery_ok) + ", \"temperature_C\" : "@
        + sign_text(reading.sign) + decimal(reading.temp_int) + "."@ + decimal(
        reading.temp_decimal,
    ) + ", \"humidity\" : "@ + decimal(reading.humidity) + " }"@
}

fn digit_str(d: u8) -> (s: &'static str)
    requires
        d < 10,
    ensures
        s@ == seq![digit(d as int)],
{
    proof {
        reveal_strlit("0");
        reveal_strlit("1");
        reveal_strlit("2");
        reveal_strlit("3");
        reveal_strlit("4");
        reveal_strlit("5");
        reveal_strlit("6");
        reveal_strlit("7");
        reveal_strlit("8");
        reveal_strlit("9");
    }
    let s = match d {
        0 => "0",
        1 => "1",
        2 => "2",
        3 => "3",
        4 => "4",
        5 => "5",
        6 => "6",
        7 => "7",
        8 => "8",
        _ => "9",
    };
    assert(s@ =~= seq![digit(d as int)]);
    s
}

fn append_digits(out: &mut String, n: u64)
    ensures
        final(out)@ == old(out)@ + digits(n as nat),
    decreases n,
{
    if n >= 10 {
        append_digits(out, n / 10);
    }
    out.append(digit_str((n % 10) as u8));
    assert(final(out)@ =~= old(out)@ + digits(n as nat));
}

/// Appends an integer in decimal.
pub fn append_decimal(out: &mut String, v: i32)
    ensures
        final(out)@ == old(out)@ + decimal(v as int),
{
    if v < 0 {
        proof {
            reveal_strlit("-");
        }
        out.append("-");
        append_digits(out, (-(v as i64)) as u64);
        assert(final(out)@ =~= old(out)@ + decimal(v as int));
    } else {
        append_digits(out, v as u64);
    }
}

/// The topic under which readings of the sensor model `model` are
/// published.
pub fn topic(model: &str) -> (t: String)
    ensures
        t@ == topic_text(model@),
{
    let mut t = String::from_str("sensors/");
    t.append(model);
    t
}

/// The payload for `reading`, taken at the time written as `time`.
pub fn payload(time: &str, reading: &Parsed) -> (p: String)
    ensures
        p@ == payload_text(time@, reading@),
{
    let mut p = String::from_str("{\"time\" : \"");
    p.append(time);
    p.append("\", \"model\" : \"");
    p.append(reading.model());
    p.append("\", \"id\" : ");
    append_decimal(&mut p, reading.id as i32);
    p.append(", \"channel\" : ");
    append_decimal(&mut p, reading.channel as i32);
    p.append(", \"battery_ok\" : ");
    append_decimal(&mut p, reading.battery_ok as i32);
    p.append(", \"temperature_C\" : ");
    if reading.sign < 0 {
        proof {
            reveal_strlit("-");
        }
        p.append("-");
    }
    assert(p@ =~= "{\"time\" : \""@ + time@ + "\", \"model\" : \""@ + reading@.model_name()
        + "\", \"id\" : "@ + decimal(reading@.id) + ", \"channel\" : "@ + decimal(
        reading@.channel,
    ) + ", \"battery_ok\" : "@ + decimal(reading@.battery_ok) + ", \"temperature_C\" : "@
        + sign_text(reading@.sign));
    append_decimal(&mut p, reading.temp_int);
    p.append(".");
    append_decimal(&mut p, reading.temp_decimal);
    p.append(", \"humidity\" : ");
    append_decimal(&mut p, reading.humidity);
    p.append(" }");
    p
}

/// A message for the message sink.
pub struct Report {
    pub topic: String,
    pub payload: String,
}

/// The message that reports `reading` as taken at the instant `now`, in
/// microseconds since the Unix epoch. There is none for an instant that
/// cannot be written as a date.
pub fn report(reading: &Parsed, now: u64) -> (message: Option<Report>)
    ensures
        message is Some <==> now <= STAMP_MAX_MICROS,
        message matches Some(m) ==> m.topic@ == topic_text(reading@.model_name()) && m.payload@
            == payload_text(strftime_text(now as int, stamp_format()), reading@),
{
    match utc_stamp(now) {
        Some(time) => Some(
            Report { topic: topic(reading.model()), payload: payload(time.as_str(), reading) },
        ),
        None => None,
    }
}

} // verus!
