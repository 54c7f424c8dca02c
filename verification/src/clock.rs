use vstd::prelude::*;

verus! {

use crate::models::UserData;

/// Why a command aborted. A stored preference that no longer parses is a
/// data-integrity problem upstream: the command fails instead of guessing.
#[derive(Debug, PartialEq, Eq, Structural)]
pub enum CommandError {
    MalformedPreference,
}

/// The UTC offset, in seconds, that the timezone database assigns to a
/// named zone at an instant; `None` when the name is no known zone or the
/// instant lies outside the calendar's range. The offset is a function of
/// the name and the instant alone.
pub uninterp spec fn tz_offset_of(name: Seq<char>, unix_secs: int) -> Option<int>;

/// Relies on chrono_tz's `Tz` (`FromStr` and
/// `TimeZone::offset_from_utc_datetime`, which is total on timestamps) and
/// chrono's `DateTime::from_timestamp`: the zone's UTC offset at an instant
/// depends on the zone name and the instant alone, and the lookup fails
/// exactly when the name does not parse or the instant is out of range.
#[verifier::external_body]
fn utc_offset_lookup(name: &str, unix_secs: i64) -> (r: Option<i32>)
    ensures
        r is Some <==> tz_offset_of(name@, unix_secs as int) is Some,
        r matches Some(off) ==> Some(off as int) == tz_offset_of(name@, unix_secs as int),
{
    match name.parse::<chrono_tz::Tz>() {
        Ok(tz) => match chrono::DateTime::<chrono::Utc>::from_timestamp(unix_secs, 0) {
            Some(dt) => {
                let off = chrono::TimeZone::offset_from_utc_datetime(&tz, &dt.naive_utc());
                Some(chrono::Offset::fix(&off).local_minus_utc())
            },
            None => None,
        },
        Err(_) => None,
    }
}

pub open spec fn digit_char(d: int) -> char {
    if d == 0 {
        '0'
    } else if d == 1 {
        '1'
    } else if d == 2 {
        '2'
    } else if d == 3 {
        '3'
    } else if d == 4 {
        '4'
    } else if d == 5 {
        '5'
    } else if d == 6 {
        '6'
    } else if d == 7 {
        '7'
    } else if d == 8 {
        '8'
    } else {
        '9'
    }
}

pub open spec fn two_digits(n: int) -> Seq<char> {
    seq![digit_char(n / 10), digit_char(n % 10)]
}

/// The text the clock command renders for an instant shifted by a zone
/// offset: `HH:MM:SS`, or `II:MM:SS AM`/`II:MM:SS PM` for 12-hour display.
pub open spec fn clock_text(unix_secs: int, offset_secs: int, twelve_hour: bool) -> Seq<char> {
    let sod = (unix_secs + offset_secs) % 86400;
    let h = sod / 3600;
    let m = (sod / 60) % 60;
    let s = sod % 60;
    if twelve_hour {
        let h12 = if h % 12 == 0 {
            12int
        } else {
            h % 12
        };
        two_digits(h12) + seq![':'] + two_digits(m) + seq![':'] + two_digits(s) + seq![' '] + (
        if h < 12 {
            seq!['A', 'M']
        } else {
            seq!['P', 'M']
        })
    } else {
        two_digits(h) + seq![':'] + two_digits(m) + seq![':'] + two_digits(s)
    }
}

fn digit_str(d: i64) -> (r: &'static str)
    requires
        0 <= d < 10,
    ensures
        r@ == seq![digit_char(d as int)],
{
    let r = match d {
        0 => "0",
        1 => "1",
        2 => "2",
        3 => "3",
        4 => "4",
        5 => "5",
        6 => "6",
        7 => "7",
        8 => "8",
        _ => "9",
    };
    proof {
        reveal_strlit("0");
        reveal_strlit("1");
        reveal_strlit("2");
        reveal_strlit("3");
        reveal_strlit("4");
        reveal_strlit("5");
        reveal_strlit("6");
        reveal_strlit("7");
        reveal_strlit("8");
        reveal_strlit("9");
        assert(r@ =~= seq![digit_char(d as int)]);
    }
    r
}

fn push_two_digits(out: &mut String, n: i64)
    requires
        0 <= n < 100,
    ensures
        final(out)@ == old(out)@ + two_digits(n as int),
{
    out.append(digit_str(n / 10));
    out.append(digit_str(n % 10));
    proof {
        assert(final(out)@ =~= old(out)@ + two_digits(n as int));
    }
}

/// Euclidean remainder by one day's seconds.
fn floor_mod_day(x: i64) -> (r: i64)
    ensures
        r == x as int % 86400,
        0 <= r < 86400,
{
    let t = x % 86400;
    if t < 0 {
        t + 86400
    } else {
        t
    }
}

/// Formats the time of day of an instant under a zone offset, exactly as
/// `clock_text` states.
pub fn clock_time_text(unix_secs: i64, offset_secs: i32, twelve_hour: bool) -> (r: String)
    ensures
        r@ == clock_text(unix_secs as int, offset_secs as int, twelve_hour),
{
    let a = floor_mod_day(unix_secs);
    let b = floor_mod_day(offset_secs as i64);
    let sod = (a + b) % 86400;
    proof {
        vstd::arithmetic::div_mod::lemma_add_mod_noop(
            unix_secs as int,
            offset_secs as int,
            86400,
        );
    }
    let h = sod / 3600;
    let m = (sod / 60) % 60;
    let s = sod % 60;
    let mut out = String::new();
    if twelve_hour {
        let h12 = if h % 12 == 0 {
            12
        } else {
            h % 12
        };
        push_two_digits(&mut out, h12);
        out.append(":");
        push_two_digits(&mut out, m);
        out.append(":");
        push_two_digits(&mut out, s);
        if h < 12 {
            out.append(" AM");
        } else {
            out.append(" PM");
        }
        proof {
            reveal_strlit(":");
            reveal_strlit(" AM");
            reveal_strlit(" PM");
            assert(out@ =~= clock_text(unix_secs as int, offset_secs as int, true));
        }
    } else {
        push_two_digits(&mut out, h);
        out.append(":");
        push_two_digits(&mut out, m);
        out.append(":");
        push_two_digits(&mut out, s);
        proof {
            reveal_strlit(":");
            assert(out@ =~= clock_text(unix_secs as int, offset_secs as int, false));
        }
    }
    out
}

/// Whether the raw argument tail selects 12-hour display: it must be
/// exactly the text `12`.
fn is_twelve_arg(args: &str) -> (r: bool)
    ensures
        r == (args@ == "12"@),
{
    proof {
        reveal_strlit("12");
    }
    let n = args.unicode_len();
    if n != 2 {
        return false;
    }
    let c0 = args.get_char(0);
    let c1 = args.get_char(1);
    if c0 == '1' && c1 == '2' {
        proof {
            assert(args@ =~= "12"@);
        }
        true
    } else {
        false
    }
}

/// The clock command's computation: the time now in the user's stored
/// timezone, in 12-hour display exactly when the raw argument is `12`. A
/// stored timezone that no longer resolves aborts the command with
/// `MalformedPreference` instead of substituting a wrong value.
pub fn clock(user: &UserData, now_unix: i64, args: &str) -> (r: Result<String, CommandError>)
    ensures
        r is Ok <==> tz_offset_of(user.timezone@, now_unix as int) is Some,
        r is Err ==> r == Err::<String, CommandError>(CommandError::MalformedPreference),
        r matches Ok(s) ==> (tz_offset_of(user.timezone@, now_unix as int) matches Some(off)
            && s@ == clock_text(now_unix as int, off, args@ == "12"@)),
{
    let off = utc_offset_lookup(user.timezone.as_str(), now_unix);
    match off {
        Some(o) => {
            let twelve = is_twelve_arg(args);
            Ok(clock_time_text(now_unix, o, twelve))
        },
        None => Err(CommandError::MalformedPreference),
    }
}

} // verus!
