//! When a finished torrent has seeded enough to be removed.

use vstd::prelude::*;
use crate::plugin::opt_chars;
use crate::text::{parse_i64, parse_i64_value};

verus! {

/// The seeding goals stored for a torrent, as far as the removal rule reads
/// them: whether its seed-ratio goal is set and met (ratios are floating-point
/// values that the caller compares), and its seed-time goal.
#[derive(Debug, Clone, Copy)]
pub struct SeedGoals {
    pub ratio_goal_met: bool,
    pub seed_time_seconds: Option<i64>,
}

/// The next step in deciding whether a torrent may be removed.
#[derive(Debug, Clone, Copy, PartialEq, Eq, Structural)]
pub enum RemovalStep {
    /// The decision is made.
    Decided(bool),
    /// The torrent may be removed once it has seeded this many seconds since it finished.
    CheckSeedTime(i64),
}

/// An unfinished torrent, or one without stored goals, stays; one whose ratio
/// goal is met may go; otherwise its seed-time goal, if any, decides.
pub open spec fn removal_step_of(finished: bool, goals: Option<SeedGoals>) -> RemovalStep {
    if !finished {
        RemovalStep::Decided(false)
    } else {
        match goals {
            None => RemovalStep::Decided(false),
            Some(g) => if g.ratio_goal_met {
                RemovalStep::Decided(true)
            } else {
                match g.seed_time_seconds {
                    Some(t) => RemovalStep::CheckSeedTime(t),
                    None => RemovalStep::Decided(false),
                }
            },
        }
    }
}

/// The first step of the removal rule for a torrent.
pub fn removal_step(finished: bool, goals: Option<SeedGoals>) -> (s: RemovalStep)
    ensures
        s == removal_step_of(finished, goals),
{
    if !finished {
        return RemovalStep::Decided(false);
    }
    match goals {
        None => RemovalStep::Decided(false),
        Some(g) => {
            if g.ratio_goal_met {
                RemovalStep::Decided(true)
            } else {
                match g.seed_time_seconds {
                    Some(t) => RemovalStep::CheckSeedTime(t),
                    None => RemovalStep::Decided(false),
                }
            }
        },
    }
}

/// When a torrent finished, and whether `now` must be stored as that time.
#[derive(Debug, Clone, Copy)]
pub struct FinishedAt {
    pub seconds: i64,
    pub store_now: bool,
}

/// The finish time RQBit reports when it is positive, else the one stored
/// earlier when it reads as an integer, else `now` (which is then stored).
pub open spec fn finished_at_of(reported: Option<i64>, stored: Option<Seq<char>>, now: i64) -> (i64, bool) {
    match reported {
        Some(v) if v > 0 => (v, false),
        _ => match stored {
            Some(text) => match parse_i64_value(text) {
                Some(v) => (v as i64, false),
                None => (now, true),
            },
            None => (now, true),
        },
    }
}

/// Resolves when a torrent finished.
pub fn resolve_finished_at(reported: Option<i64>, stored: Option<String>, now: i64) -> (f: FinishedAt)
    ensures
        (f.seconds, f.store_now) == finished_at_of(reported, opt_chars(stored), now),
{
    if let Some(v) = reported {
        if v > 0 {
            return FinishedAt { seconds: v, store_now: false };
        }
    }
    if let Some(text) = stored {
        if let Some(v) = parse_i64(text.as_str()) {
            return FinishedAt { seconds: v, store_now: false };
        }
    }
    FinishedAt { seconds: now, store_now: true }
}

/// `a.saturating_sub(b)` for `i64`.
pub open spec fn saturating_diff(a: i64, b: i64) -> int {
    if a - b < i64::MIN {
        i64::MIN as int
    } else if a - b > i64::MAX {
        i64::MAX as int
    } else {
        a - b
    }
}

/// Whether a torrent that finished at `finished_at` has seeded `seed_time_seconds` by `now`.
pub fn seed_time_reached(now: i64, finished_at: i64, seed_time_seconds: i64) -> (r: bool)
    ensures
        r == (saturating_diff(now, finished_at) >= seed_time_seconds),
{
    let elapsed: i64 = if finished_at >= 0 {
        if now < i64::MIN + finished_at {
            i64::MIN
        } else {
            now - finished_at
        }
    } else if now > i64::MAX + finished_at {
        i64::MAX
    } else {
        now - finished_at
    };
    elapsed >= seed_time_seconds
}

/// Law: a torrent that has not finished is never removable.
pub proof fn unfinished_torrents_stay(goals: Option<SeedGoals>)
    ensures
        removal_step_of(false, goals) == RemovalStep::Decided(false),
{
}

/// Law: a torrent's finish time is the positive time RQBit reports; else the
/// time stored earlier, when it reads as an integer, and nothing is stored;
/// else now, which is then stored.
pub proof fn finish_times_are_kept(reported: Option<i64>, stored: Option<Seq<char>>, now: i64)
    ensures
        reported is Some && reported->0 > 0 ==> finished_at_of(reported, stored, now) == (
            reported->0,
            false,
        ),
        !(reported is Some && reported->0 > 0) && stored is Some && parse_i64_value(stored->0) is Some
            ==> finished_at_of(reported, stored, now) == (parse_i64_value(stored->0)->0 as i64, false),
        !(reported is Some && reported->0 > 0) && (stored is None || parse_i64_value(stored->0) is None)
            ==> finished_at_of(reported, stored, now) == (now, true),
{
}

/// Law: without overflow, a seed-time goal is reached exactly when at least
/// that many seconds passed since the torrent finished.
pub proof fn seed_time_counts_from_the_finish(now: i64, finished_at: i64, seed_time_seconds: i64)
    requires
        i64::MIN <= now - finished_at <= i64::MAX,
    ensures
        (saturating_diff(now, finished_at) >= seed_time_seconds) <==> (now - finished_at
            >= seed_time_seconds),
{
}

/// Law: a finished torrent whose ratio goal is met may be removed; one whose
/// ratio goal is not met is decided by its seed-time goal, and stays without one.
pub proof fn goals_decide_removal(goals: SeedGoals)
    ensures
        goals.ratio_goal_met ==> removal_step_of(true, Some(goals)) == RemovalStep::Decided(true),
        !goals.ratio_goal_met && goals.seed_time_seconds is Some ==> removal_step_of(true, Some(goals))
            == RemovalStep::CheckSeedTime(goals.seed_time_seconds->0),
        !goals.ratio_goal_met && goals.seed_time_seconds is None ==> removal_step_of(true, Some(goals))
            == RemovalStep::Decided(false),
        removal_step_of(true, None) == RemovalStep::Decided(false),
{
}

} // verus!
