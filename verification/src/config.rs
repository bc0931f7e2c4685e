//! Run configuration read from command-line arguments: door count,
//! contestant strategy, and number of plays.

use vstd::prelude::*;

use crate::game::Strategy;
use crate::text::dec_value;
use crate::text::parse_i32;
use crate::text::str_eq;

verus! {

/// The strategy a configuration string names, if any.
pub open spec fn strategy_of(s: Seq<char>) -> Option<Strategy> {
    if s == "swap"@ {
        Some(Strategy::Swap)
    } else if s == "stay"@ {
        Some(Strategy::Stay)
    } else {
        None
    }
}

/// `s` denotes a decimal integer that fits in an `i32`.
pub open spec fn parses_as_i32(s: Seq<char>) -> bool {
    dec_value(s) matches Some(v) && i32::MIN <= v <= i32::MAX
}

impl Strategy {
    /// Reads a strategy from its configuration string, `"swap"` or `"stay"`;
    /// any other string is rejected.
    pub fn from_string(input: &String) -> (r: Result<Strategy, &'static str>)
        ensures
            r is Ok <==> strategy_of(input@) is Some,
            r matches Ok(s) ==> strategy_of(input@) == Some(s),
            r matches Err(m) ==> m@ == "not a valid strategy"@,
    {
        if str_eq(input.as_str(), "swap") {
            Ok(Strategy::Swap)
        } else if str_eq(input.as_str(), "stay") {
            Ok(Strategy::Stay)
        } else {
            Err("not a valid strategy")
        }
    }
}

/// A run's configuration, read once from input and immutable thereafter.
pub struct Config {
    pub total_doors: i32,
    pub strategy: Strategy,
    pub plays: i32,
}

impl Config {
    /// Reads a configuration from command-line arguments: after the program
    /// name come the door count, the strategy and the play count. Every
    /// malformed input is rejected here, before any trial starts.
    pub fn new(args: &[String]) -> (r: Result<Config, &'static str>)
        ensures
            r is Ok <==> {
                &&& args@.len() >= 4
                &&& parses_as_i32(args@[1]@)
                &&& strategy_of(args@[2]@) is Some
                &&& parses_as_i32(args@[3]@)
            },
            r matches Ok(c) ==> {
                &&& dec_value(args@[1]@) == Some(c.total_doors as int)
                &&& strategy_of(args@[2]@) == Some(c.strategy)
                &&& dec_value(args@[3]@) == Some(c.plays as int)
            },
            args@.len() < 4 ==> (r matches Err(m) && m@ == "not enough arguments"@),
            args@.len() >= 4 && !parses_as_i32(args@[1]@) ==> (r matches Err(m) && m@
                == "invalid number"@),
            args@.len() >= 4 && parses_as_i32(args@[1]@) && strategy_of(args@[2]@) is None ==> (
            r matches Err(m) && m@ == "not a valid strategy"@),
            args@.len() >= 4 && parses_as_i32(args@[1]@) && strategy_of(args@[2]@) is Some
                && !parses_as_i32(args@[3]@) ==> (r matches Err(m) && m@ == "invalid number"@),
    {
        if args.len() < 4 {
            return Err("not enough arguments");
        }
        let total_doors: i32 = match parse_i32(args[1].as_str()) {
            Ok(v) => v,
            Err(e) => {
                return Err(e);
            },
        };
        let strategy: Strategy = match Strategy::from_string(&args[2]) {
            Ok(s) => s,
            Err(e) => {
                return Err(e);
            },
        };
        let plays: i32 = match parse_i32(args[3].as_str()) {
            Ok(v) => v,
            Err(e) => {
                return Err(e);
            },
        };
        Ok(Config { total_doors, strategy, plays })
    }
}

} // verus!
