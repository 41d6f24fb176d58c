use vstd::prelude::*;

verus! {

/// The decimal digit character for `d` (`d < 10`).
pub open spec fn digit_char(d: nat) -> char {
    if d == 0 {
        '0'
    } else if d == 1 {
        '1'
    } else if d == 2 {
        '2'
    } else if d == 3 {
        '3'
    } else if d == 4 {
        '4'
    } else if d == 5 {
        '5'
    } else if d == 6 {
        '6'
    } else if d == 7 {
        '7'
    } else if d == 8 {
        '8'
    } else {
        '9'
    }
}

/// The usual decimal rendering of `n`, most significant digit first,
/// without leading zeros (`0` itself renders as `"0"`).
pub open spec fn dec_seq(n: nat) -> Seq<char>
    decreases n,
{
    if n < 10 {
        seq![digit_char(n)]
    } else {
        dec_seq(n / 10).push(digit_char(n % 10))
    }
}

/// Appends the decimal rendering of `n` to `out`.
fn push_dec(n: u64, out: &mut String)
    ensures
        final(out)@ == old(out)@ + dec_seq(n as nat),
    decreases n,
{
    if n >= 10 {
        push_dec(n / 10, out);
    }
    let d: u64 = n % 10;
    let digit: &str = if d == 0 {
        "0"
    } else if d == 1 {
        "1"
    } else if d == 2 {
        "2"
    } else if d == 3 {
        "3"
    } else if d == 4 {
        "4"
    } else if d == 5 {
        "5"
    } else if d == 6 {
        "6"
    } else if d == 7 {
        "7"
    } else if d == 8 {
        "8"
    } else {
        "9"
    };
    proof {
        reveal_strlit("0");
        reveal_strlit("1");
        reveal_strlit("2");
        reveal_strlit("3");
        reveal_strlit("4");
        reveal_strlit("5");
        reveal_strlit("6");
        reveal_strlit("7");
        reveal_strlit("8");
        reveal_strlit("9");
        assert(digit@ =~= seq![digit_char((n % 10) as nat)]);
        if n >= 10 {
            assert(dec_seq(n as nat) == dec_seq((n / 10) as nat).push(
                digit_char((n % 10) as nat),
            ));
        }
    }
    out.append(digit);
    proof {
        assert(out@ =~= old(out)@ + dec_seq(n as nat));
    }
}

/// The decimal rendering of `n` as an owned string.
pub fn dec_string(n: u64) -> (r: String)
    ensures
        r@ == dec_seq(n as nat),
{
    let mut s = String::new();
    push_dec(n, &mut s);
    proof {
        assert(s@ =~= dec_seq(n as nat));
    }
    s
}

/// Seconds elapsed from `t0` to `now`, zero when `now` lies before `t0`.
pub open spec fn elapsed(now: u64, t0: u64) -> nat {
    if now >= t0 {
        (now - t0) as nat
    } else {
        0
    }
}

/// What [`sec_to_hms_string`] returns for a duration of `seconds` seconds.
///
/// The duration decomposes into whole hours, whole minutes and leftover
/// seconds. Durations under a minute render in seconds, under an hour in
/// minutes. At an hour and above, minutes near a whole hour are banded to
/// the whole hour: at most four minutes past the hour rounds down, 56 or
/// more minutes rounds up to the next hour; in between, hours and minutes
/// are both shown.
pub open spec fn hms_seq(seconds: nat) -> Seq<char> {
    let hours = seconds / 3600;
    let minutes = (seconds % 3600) / 60;
    let rem = seconds % 60;
    if hours == 0 && minutes == 0 && rem == 1 {
        "1 second"@
    } else if hours == 0 && minutes == 0 {
        dec_seq(rem) + " seconds"@
    } else if hours == 0 && minutes == 1 {
        "1 minute"@
    } else if hours == 0 {
        dec_seq(minutes) + " minutes"@
    } else if hours == 1 && minutes <= 4 {
        "1 hour"@
    } else if minutes <= 4 {
        dec_seq(hours) + " hours"@
    } else if minutes >= 56 {
        dec_seq(hours + 1) + " hours"@
    } else if hours == 1 {
        "1 hour and "@ + dec_seq(minutes) + " minutes"@
    } else {
        dec_seq(hours) + " hours and "@ + dec_seq(minutes) + " minutes"@
    }
}

/// Renders a duration in seconds as a human-readable string, banding
/// minutes near an hour boundary to whole hours; see [`hms_seq`] for the
/// exact rules.
pub fn sec_to_hms_string(seconds: u64) -> (r: String)
    ensures
        r@ == hms_seq(seconds as nat),
{
    let hours: u64 = seconds / 3600;
    let minutes: u64 = (seconds % 3600) / 60;
    let rem: u64 = seconds % 60;
    if hours == 0 && minutes == 0 && rem == 1 {
        String::from_str("1 second")
    } else if hours == 0 && minutes == 0 {
        let mut s = dec_string(rem);
        s.append(" seconds");
        s
    } else if hours == 0 && minutes == 1 {
        String::from_str("1 minute")
    } else if hours == 0 {
        let mut s = dec_string(minutes);
        s.append(" minutes");
        s
    } else if hours == 1 && minutes <= 4 {
        String::from_str("1 hour")
    } else if minutes <= 4 {
        let mut s = dec_string(hours);
        s.append(" hours");
        s
    } else if minutes >= 56 {
        let mut s = dec_string(hours + 1);
        s.append(" hours");
        s
    } else if hours == 1 {
        let mut s = String::from_str("1 hour and ");
        let m = dec_string(minutes);
        s.append(m.as_str());
        s.append(" minutes");
        s
    } else {
        let mut s = dec_string(hours);
        s.append(" hours and ");
        let m = dec_string(minutes);
        s.append(m.as_str());
        s.append(" minutes");
        s
    }
}

} // verus!
