//! UTC timestamps as `YYYY-MM-DDTHH:MM:SSZ`, by Howard Hinnant's
//! civil-from-days algorithm: pure integer arithmetic, no calendar crate.

use vstd::prelude::*;
use vstd::string::StringExecFns;

use crate::text::{dec_digits, decimal};

verus! {

/// The civil `(year, month, day, hour, minute, second)` of a Unix time, by
/// the civil-from-days algorithm (`/` and `%` are Euclidean here).
pub open spec fn civil(secs: int) -> (int, int, int, int, int, int) {
    let z = secs + 719_468 * 86_400;
    let days = z / 86_400;
    let sod = z % 86_400;
    let hh = sod / 3600;
    let mm = (sod / 60) % 60;
    let ss = sod % 60;
    let era = days / 146_097;
    let doe = days - era * 146_097;
    let yoe = (doe - doe / 1460 + doe / 36524 - doe / 146_096) / 365;
    let y_adj = yoe + era * 400;
    let doy = doe - (365 * yoe + yoe / 4 - yoe / 100);
    let mp = (5 * doy + 2) / 153;
    let d = doy - (153 * mp + 2) / 5 + 1;
    let m = if mp < 10 {
        mp + 3
    } else {
        mp - 9
    };
    let y = if m <= 2 {
        y_adj + 1
    } else {
        y_adj
    };
    (y, m, d, hh, mm, ss)
}

/// `n` in decimal, zero-padded on the left to at least `w` digits.
pub open spec fn padded(n: nat, w: nat) -> Seq<char> {
    let t = dec_digits(n);
    if t.len() >= w {
        t
    } else {
        Seq::new((w - t.len()) as nat, |i: int| '0') + t
    }
}

/// `format!("{y:04}")`: zero-padded to four characters, the sign counted.
pub open spec fn year_text(y: int) -> Seq<char> {
    if y >= 0 {
        padded(y as nat, 4)
    } else {
        "-"@ + padded((-y) as nat, 3)
    }
}

/// `YYYY-MM-DDTHH:MM:SSZ` for a Unix time.
pub open spec fn iso_text(secs: int) -> Seq<char> {
    let (y, m, d, hh, mm, ss) = civil(secs);
    year_text(y) + "-"@ + padded(m as nat, 2) + "-"@ + padded(d as nat, 2) + "T"@ + padded(
        hh as nat,
        2,
    ) + ":"@ + padded(mm as nat, 2) + ":"@ + padded(ss as nat, 2) + "Z"@
}

fn pad(n: u64, w: usize) -> (r: String)
    ensures
        r@ == padded(n as nat, w as nat),
{
    let t = decimal(n);
    let len = crate::text::chars_of(t.as_str()).len();
    if len >= w {
        return t;
    }
    let mut r = String::new();
    let mut k: usize = 0;
    while k < w - len
        invariant
            len == t@.len(),
            len < w,
            k <= w - len,
            r@ == Seq::new(k as nat, |i: int| '0'),
        decreases w - len - k,
    {
        crate::text::push_char(&mut r, '0');
        assert(r@ =~= Seq::new((k + 1) as nat, |i: int| '0'));
        k = k + 1;
    }
    r.append(t.as_str());
    r
}

/// Format a Unix time (seconds) as `YYYY-MM-DDTHH:MM:SSZ` in UTC.
pub fn iso_from_secs(secs: i64) -> (r: String)
    requires
        secs <= i64::MAX - 719_468 * 86_400,
    ensures
        r@ == iso_text(secs as int),
{
    let z: i64 = secs + 719_468 * 86_400;
    let days: i64 = z.checked_div_euclid(86_400).unwrap();
    let sod: i64 = z.checked_rem_euclid(86_400).unwrap();
    let era: i64 = days.checked_div_euclid(146_097).unwrap();
    proof {
        assert(days == z as int / 86_400);
        assert(sod == z as int % 86_400);
        assert(0 <= sod < 86_400);
        assert(era == days as int / 146_097);
        assert(0 <= days - era * 146_097 < 146_097) by (nonlinear_arith)
            requires
                era == days as int / 146_097,
        ;
        assert(-200_000_000_000_000 <= days <= 200_000_000_000_000) by (nonlinear_arith)
            requires
                days == z as int / 86_400,
        ;
        assert(-2_000_000_000 <= era <= 2_000_000_000) by (nonlinear_arith)
            requires
                era == days as int / 146_097,
                -200_000_000_000_000 <= days <= 200_000_000_000_000,
        ;
    }
    let sod_u: u64 = sod as u64;
    let hh: u64 = sod_u / 3600;
    let mm: u64 = (sod_u / 60) % 60;
    let ss: u64 = sod_u % 60;
    let doe: u64 = (days - era * 146_097) as u64;
    let yoe: u64 = (doe - doe / 1460 + doe / 36524 - doe / 146_096) / 365;
    proof {
        assert(doe / 1460 <= doe);
        assert(yoe <= 400) by (nonlinear_arith)
            requires
                doe < 146_097,
                yoe == (doe - doe / 1460 + doe / 36524 - doe / 146_096) / 365,
        ;
    }
    let y_adj: i64 = yoe as i64 + era * 400;
    proof {
        assert(365 * yoe + yoe / 4 - yoe / 100 <= doe) by (nonlinear_arith)
            requires
                doe < 146_097,
                yoe == (doe - doe / 1460 + doe / 36524 - doe / 146_096) / 365,
        ;
    }
    let doy: u64 = doe - (365 * yoe + yoe / 4 - yoe / 100);
    proof {
        assert(doy <= 365) by (nonlinear_arith)
            requires
                doe < 146_097,
                yoe == (doe - doe / 1460 + doe / 36524 - doe / 146_096) / 365,
                doy == doe - (365 * yoe + yoe / 4 - yoe / 100),
        ;
    }
    let mp: u64 = (5 * doy + 2) / 153;
    proof {
        assert(mp <= 11);
        assert((153 * mp + 2) / 5 <= doy) by (nonlinear_arith)
            requires
                mp == (5 * doy + 2) / 153,
        ;
    }
    let d: u64 = doy - (153 * mp + 2) / 5 + 1;
    let m: u64 = if mp < 10 {
        mp + 3
    } else {
        mp - 9
    };
    let y: i64 = if m <= 2 {
        y_adj + 1
    } else {
        y_adj
    };
    let mut out = if y >= 0 {
        pad(y as u64, 4)
    } else {
        let mut t = String::from_str("-");
        let a = pad((-y) as u64, 3);
        t.append(a.as_str());
        t
    };
    out.append("-");
    out.append(pad(m, 2).as_str());
    out.append("-");
    out.append(pad(d, 2).as_str());
    out.append("T");
    out.append(pad(hh, 2).as_str());
    out.append(":");
    out.append(pad(mm, 2).as_str());
    out.append(":");
    out.append(pad(ss, 2).as_str());
    out.append("Z");
    out
}

} // verus!
