//! Naming capture files: `<dir>/<stem>_<seconds>.png`, the seconds taken
//! from the system clock.

use vstd::prelude::*;

use crate::combo::{digit_char, digit_token};

verus! {

/// The decimal digits of `n`, most significant first, no leading zeros
/// (a single `'0'` for zero).
pub open spec fn spec_decimal(n: int) -> Seq<char>
    recommends
        n >= 0,
    decreases n,
{
    if n < 10 {
        seq![digit_char(n)]
    } else {
        spec_decimal(n / 10).push(digit_char(n % 10))
    }
}

/// Renders `n` in decimal.
pub fn u64_to_decimal(n: u64) -> (s: String)
    ensures
        s@ == spec_decimal(n as int),
    decreases n,
{
    if n < 10 {
        digit_token(n as usize).to_owned()
    } else {
        let mut s = u64_to_decimal(n / 10);
        s.append(digit_token((n % 10) as usize));
        proof {
            assert(s@ =~= spec_decimal(n as int));
        }
        s
    }
}

/// The capture file path for a timestamp: `<dir>/<stem>_<ts>.png`.
pub fn timestamped_png_path(dir: &str, stem: &str, ts: u64) -> (p: String)
    ensures
        p@ == dir@ + "/"@ + stem@ + "_"@ + spec_decimal(ts as int) + ".png"@,
{
    let mut p = dir.to_owned();
    p.append("/");
    p.append(stem);
    p.append("_");
    let num = u64_to_decimal(ts);
    p.append(num.as_str());
    p.append(".png");
    proof {
        assert(p@ =~= dir@ + "/"@ + stem@ + "_"@ + spec_decimal(ts as int) + ".png"@);
    }
    p
}

/// Relies on std::time::SystemTime::now and duration_since(UNIX_EPOCH) for
/// the seconds since the Unix epoch; a clock before the epoch reads as zero.
/// The clock's value is not modeled, so nothing is promised of the result.
#[verifier::external_body]
pub fn get_timestamp() -> u64 {
    match std::time::SystemTime::now().duration_since(std::time::UNIX_EPOCH) {
        Ok(d) => d.as_secs(),
        Err(_) => 0,
    }
}

/// A capture file path named by the clock: `<dir>/<stem>_<now>.png` for the
/// current timestamp, whatever the clock read.
pub fn capture_path_now(dir: &str, stem: &str) -> (p: String)
    ensures
        exists|ts: u64|
            p@ == dir@ + "/"@ + stem@ + "_"@ + #[trigger] spec_decimal(ts as int) + ".png"@,
{
    let ts = get_timestamp();
    let p = timestamped_png_path(dir, stem, ts);
    proof {
        assert(p@ == dir@ + "/"@ + stem@ + "_"@ + spec_decimal(ts as int) + ".png"@);
    }
    p
}

} // verus!
