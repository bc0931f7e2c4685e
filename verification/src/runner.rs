//! The simulation runner: repeats the trial engine for a configured number
//! of plays and accumulates win and loss counts.

use vstd::prelude::*;

use crate::config::Config;
use crate::game::play;
use crate::game::Outcome;

verus! {

/// Aggregate counts of a whole run.
#[derive(Debug, PartialEq, Eq, Structural)]
pub struct RunReport {
    pub wins: i32,
    pub losses: i32,
}

/// Runs the configured number of independent trials and counts wins and
/// losses; each trial bumps exactly one counter, so the counts always sum
/// to the number of plays. A configuration with fewer than three doors is
/// rejected before any trial starts, since the host would have no door to
/// reveal.
pub fn run(config: Config) -> (r: Result<RunReport, &'static str>)
    ensures
        r is Ok <==> config.total_doors >= 3,
        r matches Ok(rep) ==> {
            &&& rep.wins >= 0
            &&& rep.losses >= 0
            &&& rep.wins + rep.losses == if config.plays >= 0 {
                config.plays as int
            } else {
                0
            }
        },
        config.plays <= 0 && config.total_doors >= 3 ==> r == Ok::<RunReport, &'static str>(
            RunReport { wins: 0, losses: 0 },
        ),
        r matches Err(m) ==> m@ == "not enough doors to reveal"@,
{
    if config.total_doors < 3 {
        return Err("not enough doors to reveal");
    }
    let mut wins: i32 = 0;
    let mut losses: i32 = 0;
    let mut count: i32 = 0;
    while count < config.plays
        invariant
            config.total_doors >= 3,
            0 <= count,
            count <= config.plays || count == 0,
            wins >= 0,
            losses >= 0,
            wins + losses == count,
        decreases config.plays - count,
    {
        let result = play(&config.strategy, config.total_doors);
        if result == Outcome::Win {
            wins = wins + 1;
        } else {
            losses = losses + 1;
        }
        count = count + 1;
    }
    Ok(RunReport { wins, losses })
}

} // verus!
