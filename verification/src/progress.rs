//! Live progress metrics for a transfer, in integer form: progress as
//! permille of the declared total, speed in bytes per second, eta in
//! seconds, and the human-readable size rendering used by session summaries.

use vstd::prelude::*;

use crate::strutil::{spec_u64_dec, u64_to_string};

verus! {

/// Progress of a transfer in permille of the declared total: zero when the
/// total is unknown or zero, capped at the largest representable value.
pub open spec fn spec_progress_permille(downloaded: u64, total: Option<u64>) -> int {
    match total {
        Some(t) => if t > 0 {
            let v = downloaded * 1000 / (t as int);
            if v > u64::MAX {
                u64::MAX as int
            } else {
                v
            }
        } else {
            0
        },
        None => 0,
    }
}

/// Transfer speed in bytes per second from bytes moved and elapsed
/// milliseconds: zero before any time has passed, capped at the largest
/// representable value.
pub open spec fn spec_speed_bps(downloaded: u64, elapsed_ms: u64) -> int {
    if elapsed_ms > 0 {
        let v = downloaded * 1000 / (elapsed_ms as int);
        if v > u64::MAX {
            u64::MAX as int
        } else {
            v
        }
    } else {
        0
    }
}

/// Remaining seconds at the current speed: absent when the total is unknown,
/// the speed is zero, or the transfer has already reached its total.
pub open spec fn spec_eta_secs(total: Option<u64>, downloaded: u64, speed_bps: u64) -> Option<
    int,
> {
    match total {
        Some(t) => if speed_bps > 0 && downloaded < t {
            Some((t - downloaded) / (speed_bps as int))
        } else {
            None
        },
        None => None,
    }
}

/// Progress in permille of the declared total.
pub fn progress_permille(downloaded: u64, total: Option<u64>) -> (r: u64)
    ensures
        r == spec_progress_permille(downloaded, total),
{
    match total {
        Some(t) => {
            if t > 0 {
                let wide: u128 = (downloaded as u128) * 1000 / (t as u128);
                if wide > u64::MAX as u128 {
                    u64::MAX
                } else {
                    wide as u64
                }
            } else {
                0
            }
        },
        None => 0,
    }
}

/// Speed in bytes per second over the elapsed milliseconds.
pub fn speed_bps(downloaded: u64, elapsed_ms: u64) -> (r: u64)
    ensures
        r == spec_speed_bps(downloaded, elapsed_ms),
{
    if elapsed_ms > 0 {
        let wide: u128 = (downloaded as u128) * 1000 / (elapsed_ms as u128);
        if wide > u64::MAX as u128 {
            u64::MAX
        } else {
            wide as u64
        }
    } else {
        0
    }
}

/// Remaining seconds at the current speed, when one can be given.
pub fn eta_secs(total: Option<u64>, downloaded: u64, speed: u64) -> (r: Option<u64>)
    ensures
        match spec_eta_secs(total, downloaded, speed) {
            Some(v) => r matches Some(x) && x == v,
            None => r is None,
        },
{
    match total {
        Some(t) => {
            if speed > 0 && downloaded < t {
                Some((t - downloaded) / speed)
            } else {
                None
            }
        },
        None => None,
    }
}

/// The unit label for a size scale: bytes, kilo, mega, giga, tera.
pub open spec fn size_unit(i: int) -> Seq<char> {
    if i == 0 {
        "B"@
    } else if i == 1 {
        "KB"@
    } else if i == 2 {
        "MB"@
    } else if i == 3 {
        "GB"@
    } else {
        "TB"@
    }
}

/// The scale chosen for a byte count: the largest unit it reaches, capped at
/// tera.
pub open spec fn size_scale(bytes: u64) -> int {
    if bytes >= 1099511627776 {
        4
    } else if bytes >= 1073741824 {
        3
    } else if bytes >= 1048576 {
        2
    } else if bytes >= 1024 {
        1
    } else {
        0
    }
}

/// The divisor for a scale: the unit's size in bytes.
pub open spec fn size_divisor(i: int) -> int {
    if i == 0 {
        1
    } else if i == 1 {
        1024
    } else if i == 2 {
        1048576
    } else if i == 3 {
        1073741824
    } else {
        1099511627776
    }
}

/// Two-digit rendering of a fraction below one hundred.
pub open spec fn spec_two_frac(r: int) -> Seq<char> {
    if r < 10 {
        seq!['0'] + spec_u64_dec(r as nat)
    } else {
        spec_u64_dec(r as nat)
    }
}

/// The human-readable size: the count scaled to its unit with two decimals,
/// `0 B` for zero.
pub open spec fn spec_format_size(bytes: u64) -> Seq<char> {
    if bytes == 0 {
        "0 B"@
    } else {
        let i = size_scale(bytes);
        let wide = bytes * 100 / size_divisor(i);
        let centi = if wide > u64::MAX {
            u64::MAX as int
        } else {
            wide
        };
        spec_u64_dec((centi / 100) as nat) + "."@ + spec_two_frac(centi % 100) + " "@
            + size_unit(i)
    }
}

/// Renders a byte count with its unit, two decimals of the scaled value.
pub fn format_size(bytes: u64) -> (r: String)
    ensures
        r@ == spec_format_size(bytes),
{
    if bytes == 0 {
        return "0 B".to_owned();
    }
    let (div, unit): (u64, &str) = if bytes >= 1099511627776 {
        (1099511627776, "TB")
    } else if bytes >= 1073741824 {
        (1073741824, "GB")
    } else if bytes >= 1048576 {
        (1048576, "MB")
    } else if bytes >= 1024 {
        (1024, "KB")
    } else {
        (1, "B")
    };
    let centi_wide: u128 = (bytes as u128) * 100 / (div as u128);
    let centi: u64 = if centi_wide > u64::MAX as u128 {
        u64::MAX
    } else {
        centi_wide as u64
    };
    let mut r = u64_to_string(centi / 100);
    r.push('.');
    let frac = centi % 100;
    if frac < 10 {
        r.push('0');
    }
    let fs = u64_to_string(frac);
    r.append(fs.as_str());
    r.push(' ');
    r.append(unit);
    proof {
        reveal_strlit(".");
        reveal_strlit(" ");
        let i = size_scale(bytes);
        assert(div == size_divisor(i));
        assert(unit@ == size_unit(i));
        assert(centi == {
            let wide = bytes * 100 / size_divisor(i);
            if wide > u64::MAX {
                u64::MAX as int
            } else {
                wide
            }
        });
        assert(r@ =~= spec_u64_dec((centi / 100) as nat) + "."@ + spec_two_frac(centi as int % 100)
            + " "@ + size_unit(i));
    }
    r
}

} // verus!
