//! Wall-clock rendering for the `gettime` verb and the startup banner.
//!
//! The driver samples the clock as whole seconds since the Unix epoch;
//! everything after that sample is computed here.  Dates come from the
//! standard civil-from-days era decomposition over the 400-year
//! Gregorian cycle, guarded so that every `u64` input yields a result;
//! the rendering is `YYYY/MM/DD HH:MM:SS`.

use vstd::prelude::*;

use vstd::arithmetic::div_mod::lemma_div_is_ordered;
use vstd::arithmetic::div_mod::lemma_div_is_ordered_by_denominator;
use vstd::arithmetic::div_mod::lemma_div_nonincreasing;
use vstd::arithmetic::div_mod::lemma_fundamental_div_mod;
use vstd::arithmetic::div_mod::lemma_fundamental_div_mod_converse;
use vstd::arithmetic::div_mod::lemma_multiply_divide_lt;

use crate::num::dec2_u64;
use crate::num::dec_u64;
use crate::num::spec_dec;
use crate::num::spec_dec2;

verus! {

/// The civil date `(year, month, day)` of a day count measured from
/// 1970-01-01, by era decomposition.  The guarded subtraction never
/// engages for a day count that comes from a `u64` second count.
pub open spec fn spec_civil(days: int) -> (int, int, int) {
    let z = days + 719468;
    let era = z / 146097;
    let doe = z % 146097;
    let yoe = (doe - doe / 1460 + doe / 36524 - doe / 146096) / 365;
    let y = yoe + era * 400;
    let start = 365 * yoe + yoe / 4 - yoe / 100;
    let doy = if start <= doe {
        doe - start
    } else {
        0
    };
    let mp = (5 * doy + 2) / 153;
    let d = doy - (153 * mp + 2) / 5 + 1;
    let m = if mp < 10 {
        mp + 3
    } else {
        mp - 9
    };
    if m <= 2 {
        (y + 1, m, d)
    } else {
        (y, m, d)
    }
}

/// The `YYYY/MM/DD HH:MM:SS` rendering of a second count since the
/// Unix epoch: the civil date of `secs / 86400`, then the time of day
/// from `secs % 86400`, fields zero-padded to two digits.
pub open spec fn spec_time_string(secs: int) -> Seq<char> {
    let days = secs / 86400;
    let tod = secs % 86400;
    let c = spec_civil(days);
    spec_dec(c.0) + "/"@ + spec_dec2(c.1) + "/"@ + spec_dec2(c.2) + " "@ + spec_dec2(tod / 3600)
        + ":"@ + spec_dec2((tod % 3600) / 60) + ":"@ + spec_dec2(tod % 60)
}

/// Renders the wall clock, given as seconds since the Unix epoch, as
/// `YYYY/MM/DD HH:MM:SS`.
pub fn system_get_time(secs: u64) -> (r: String)
    ensures
        r@ == spec_time_string(secs as int),
{
    let days: u64 = secs / 86400;
    let tod: u64 = secs % 86400;
    let z: u128 = days as u128 + 719468;
    let era: u128 = z / 146097;
    let doe: u128 = z % 146097;
    proof {
        lemma_fundamental_div_mod(z as int, 146097);
        assert(doe < 146097);
        lemma_div_nonincreasing(doe as int, 1460);
        lemma_div_nonincreasing(doe as int, 36524);
        lemma_div_nonincreasing(doe as int, 146096);
        lemma_div_is_ordered_by_denominator(doe as int, 36524, 146096);
    }
    let yoe: u128 = (doe - doe / 1460 + doe / 36524 - doe / 146096) / 365;
    proof {
        lemma_div_nonincreasing(
            doe as int - doe as int / 1460 + doe as int / 36524 - doe as int / 146096,
            365,
        );
        assert(yoe <= 2 * 146097);
        lemma_multiply_divide_lt(z as int, 146097, 0x1_0000_0000_0000);
        assert(era < 0x1_0000_0000_0000);
        lemma_div_is_ordered_by_denominator(yoe as int, 4, 100);
        lemma_div_nonincreasing(yoe as int, 4);
    }
    let y: u128 = yoe + era * 400;
    let start: u128 = 365 * yoe + yoe / 4 - yoe / 100;
    let doy: u128 = if start <= doe {
        doe - start
    } else {
        0
    };
    let mp: u128 = (5 * doy + 2) / 153;
    proof {
        lemma_fundamental_div_mod(5 * doy as int + 2, 153);
        assert(153 * mp <= 5 * doy + 2);
        lemma_div_is_ordered(153 * mp as int + 2, 5 * doy as int + 4, 5);
        lemma_fundamental_div_mod_converse(5 * doy as int + 4, 5, doy as int, 4);
        assert((153 * mp + 2) / 5 <= doy);
    }
    let d: u128 = doy - (153 * mp + 2) / 5 + 1;
    let m: u128 = if mp < 10 {
        mp + 3
    } else {
        mp - 9
    };
    let (yy, mm, dd): (u128, u128, u128) = if m <= 2 {
        (y + 1, m, d)
    } else {
        (y, m, d)
    };
    proof {
        lemma_div_nonincreasing(5 * doy as int + 2, 153);
        assert(mp <= 5 * doy + 2);
        assert(yy < 0xFFFF_FFFF_FFFF_FFFF);
        assert(mm < 0x10_0000 && dd < 0x10_0000);
        let c = spec_civil(days as int);
        assert(c.0 == yy && c.1 == mm && c.2 == dd);
    }
    let mut out = dec_u64(yy as u64);
    out.append("/");
    let p = dec2_u64(mm as u64);
    out.append(p.as_str());
    out.append("/");
    let p = dec2_u64(dd as u64);
    out.append(p.as_str());
    out.append(" ");
    let p = dec2_u64(tod / 3600);
    out.append(p.as_str());
    out.append(":");
    let p = dec2_u64((tod % 3600) / 60);
    out.append(p.as_str());
    out.append(":");
    let p = dec2_u64(tod % 60);
    out.append(p.as_str());
    proof {
        assert(out@ =~= spec_time_string(secs as int));
    }
    out
}

} // verus!
