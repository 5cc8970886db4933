//! The decisions a download worker takes while a transfer runs: when to
//! report progress, when a ranged transfer is complete, and how long to
//! pause to keep to its share of the rate limit.

use vstd::prelude::*;

verus! {

/// How often, in milliseconds, progress is reported at most.
pub const PROGRESS_INTERVAL_MS: u64 = 500;

/// The shortest pause, in milliseconds, worth taking.
pub const MIN_PAUSE_MS: u64 = 100;

/// Whether progress is due: more than 500 ms passed since the last report.
pub fn progress_due(elapsed_ms: u64) -> (r: bool)
    ensures
        r == (elapsed_ms > 500),
{
    elapsed_ms > PROGRESS_INTERVAL_MS
}

/// Whether a ranged transfer has read up to the end of its range.
pub fn range_complete(range: Option<(u64, u64)>, downloaded: u64) -> (r: bool)
    ensures
        r == (range matches Some((_, end)) && downloaded >= end),
{
    match range {
        Some((_, end)) => downloaded >= end,
        None => false,
    }
}

/// The time in milliseconds that `bytes` take at `limit` bytes per second.
pub open spec fn required_ms(bytes: nat, limit: nat) -> nat
    recommends
        limit > 0,
{
    (bytes * 1000) / limit
}

/// How long to pause, in milliseconds, after `downloaded` bytes, of which
/// `since` had been read at the last pause `elapsed_ms` ago. Under a limit
/// `L` the bytes since the last pause need `(downloaded - since) * 1000 / L`
/// ms; when that is over 100 ms and more than the time elapsed, the worker
/// pauses for the rest. No limit, or a share of 0, means no pause.
pub fn pause_ms(limit: Option<u64>, downloaded: u64, since: u64, elapsed_ms: u64) -> (r: Option<u64>)
    requires
        since <= downloaded,
        (downloaded - since) * 1000 <= u64::MAX,
    ensures
        match limit {
            Some(l) if l > 0 => {
                let need = required_ms((downloaded - since) as nat, l as nat);
                if need > 100 && elapsed_ms < need {
                    r == Some((need - elapsed_ms) as u64)
                } else {
                    r is None
                }
            },
            _ => r is None,
        },
{
    match limit {
        Some(l) => {
            if l == 0 {
                return None;
            }
            let need = (downloaded - since) * 1000 / l;
            if need > MIN_PAUSE_MS && elapsed_ms < need {
                Some(need - elapsed_ms)
            } else {
                None
            }
        },
        None => None,
    }
}

} // verus!
