//! Timestamps for archive names and dump layouts: the clock is read once
//! through a trusted call, the rendering is verified.

use crate::strutil::{dec_rep, dec_string};
use vstd::prelude::*;

verus! {

/// A number in decimal, zero-padded to two digits.
pub open spec fn pad2(n: nat) -> Seq<char> {
    if n < 10 {
        seq!['0'] + dec_rep(n)
    } else {
        dec_rep(n)
    }
}

/// A number in decimal, zero-padded to four digits.
pub open spec fn pad4(n: nat) -> Seq<char> {
    if n < 10 {
        seq!['0', '0', '0'] + dec_rep(n)
    } else if n < 100 {
        seq!['0', '0'] + dec_rep(n)
    } else if n < 1000 {
        seq!['0'] + dec_rep(n)
    } else {
        dec_rep(n)
    }
}

/// A year, four digits with a sign for a negative one.
pub open spec fn year_rep(y: int) -> Seq<char> {
    if y < 0 {
        seq!['-'] + pad4((-y) as nat)
    } else {
        pad4(y as nat)
    }
}

/// `YYYYMMDD`, the date part of an archive timestamp.
pub open spec fn spec_date(y: int, mo: nat, d: nat) -> Seq<char> {
    year_rep(y) + pad2(mo) + pad2(d)
}

/// `YYYYMMDD-HHMMSS`, the archive timestamp.
pub open spec fn spec_timestamp(y: int, mo: nat, d: nat, h: nat, mi: nat, s: nat) -> Seq<char> {
    spec_date(y, mo, d) + seq!['-'] + pad2(h) + pad2(mi) + pad2(s)
}

/// What a read of the local clock promises of its parts.
pub open spec fn valid_clock_parts(mo: nat, d: nat, h: nat, mi: nat, s: nat) -> bool {
    1 <= mo <= 12 && 1 <= d <= 31 && h <= 23 && mi <= 59 && s <= 59
}

/// Relies on chrono::Local::now and its Datelike/Timelike accessors: the
/// local calendar time as year, month, day, hour, minute, second, with
/// the component ranges chrono documents.
#[verifier::external_body]
fn local_now_parts() -> (r: (i32, u32, u32, u32, u32, u32))
    ensures
        valid_clock_parts(r.1 as nat, r.2 as nat, r.3 as nat, r.4 as nat, r.5 as nat),
{
    let now = chrono::Local::now();
    (
        chrono::Datelike::year(&now),
        chrono::Datelike::month(&now),
        chrono::Datelike::day(&now),
        chrono::Timelike::hour(&now),
        chrono::Timelike::minute(&now),
        chrono::Timelike::second(&now),
    )
}

fn pad2_str(n: u64) -> (r: String)
    ensures
        r@ == pad2(n as nat),
{
    proof {
        reveal_strlit("0");
    }
    if n < 10 {
        let mut r = String::from_str("0");
        let d = dec_string(n as u128);
        r.append(d.as_str());
        proof {
            assert("0"@ =~= seq!['0']);
            assert(r@ =~= pad2(n as nat));
        }
        r
    } else {
        dec_string(n as u128)
    }
}

fn pad4_str(n: u64) -> (r: String)
    ensures
        r@ == pad4(n as nat),
{
    proof {
        reveal_strlit("000");
        reveal_strlit("00");
        reveal_strlit("0");
    }
    if n < 10 {
        let mut r = String::from_str("000");
        let d = dec_string(n as u128);
        r.append(d.as_str());
        proof {
            assert("000"@ =~= seq!['0', '0', '0']);
            assert(r@ =~= pad4(n as nat));
        }
        r
    } else if n < 100 {
        let mut r = String::from_str("00");
        let d = dec_string(n as u128);
        r.append(d.as_str());
        proof {
            assert("00"@ =~= seq!['0', '0']);
            assert(r@ =~= pad4(n as nat));
        }
        r
    } else if n < 1000 {
        let mut r = String::from_str("0");
        let d = dec_string(n as u128);
        r.append(d.as_str());
        proof {
            assert("0"@ =~= seq!['0']);
            assert(r@ =~= pad4(n as nat));
        }
        r
    } else {
        dec_string(n as u128)
    }
}

fn year_str(y: i32) -> (r: String)
    ensures
        r@ == year_rep(y as int),
{
    proof {
        reveal_strlit("-");
    }
    if y < 0 {
        let mag = -(y as i64);
        let mut r = String::from_str("-");
        let p = pad4_str(mag as u64);
        r.append(p.as_str());
        proof {
            assert("-"@ =~= seq!['-']);
            assert(r@ =~= year_rep(y as int));
        }
        r
    } else {
        pad4_str(y as u64)
    }
}

/// Render a date as `YYYYMMDD`.
pub fn format_date(y: i32, mo: u32, d: u32) -> (r: String)
    ensures
        r@ == spec_date(y as int, mo as nat, d as nat),
{
    let mut r = year_str(y);
    let m = pad2_str(mo as u64);
    r.append(m.as_str());
    let dd = pad2_str(d as u64);
    r.append(dd.as_str());
    r
}

/// Render a full timestamp as `YYYYMMDD-HHMMSS`.
pub fn format_timestamp(y: i32, mo: u32, d: u32, h: u32, mi: u32, s: u32) -> (r: String)
    ensures
        r@ == spec_timestamp(y as int, mo as nat, d as nat, h as nat, mi as nat, s as nat),
{
    proof {
        reveal_strlit("-");
    }
    let mut r = format_date(y, mo, d);
    r.append("-");
    let hh = pad2_str(h as u64);
    r.append(hh.as_str());
    let mm = pad2_str(mi as u64);
    r.append(mm.as_str());
    let ss = pad2_str(s as u64);
    r.append(ss.as_str());
    proof {
        assert("-"@ =~= seq!['-']);
        assert(r@ =~= spec_timestamp(
            y as int,
            mo as nat,
            d as nat,
            h as nat,
            mi as nat,
            s as nat,
        ));
    }
    r
}

/// The timestamp for archive naming, from the local clock.
pub fn timestamp() -> (r: String)
    ensures
        exists|y: int, mo: nat, d: nat, h: nat, mi: nat, s: nat|
            valid_clock_parts(mo, d, h, mi, s) && r@ == #[trigger] spec_timestamp(
                y,
                mo,
                d,
                h,
                mi,
                s,
            ),
{
    let (y, mo, d, h, mi, s) = local_now_parts();
    let r = format_timestamp(y, mo, d, h, mi, s);
    proof {
        assert(valid_clock_parts(mo as nat, d as nat, h as nat, mi as nat, s as nat) && r@
            == spec_timestamp(y as int, mo as nat, d as nat, h as nat, mi as nat, s as nat));
    }
    r
}

/// The date string for dump layouts, from the local clock.
pub fn date_string() -> (r: String)
    ensures
        exists|y: int, mo: nat, d: nat|
            (1 <= mo <= 12 && 1 <= d <= 31) && r@ == #[trigger] spec_date(y, mo, d),
{
    let (y, mo, d, _h, _mi, _s) = local_now_parts();
    let r = format_date(y, mo, d);
    proof {
        assert((1 <= mo as nat <= 12 && 1 <= d as nat <= 31) && r@ == spec_date(
            y as int,
            mo as nat,
            d as nat,
        ));
    }
    r
}

} // verus!
