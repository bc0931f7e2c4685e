use monty_hall::game::choose_new_door;
use monty_hall::game::choose_same_door;
use monty_hall::game::generate_doors;
use monty_hall::game::play;
use monty_hall::game::reveal_door;
use monty_hall::text::parse_i32;
use monty_hall::Config;
use monty_hall::Door;
use monty_hall::Outcome;
use monty_hall::RunReport;
use monty_hall::Strategy;

fn three_doors_prize_at(p: i32) -> Vec<Door> {
    let mut doors = Vec::new();
    for i in 0..3 {
        doors.push(Door {
            number: i,
            prize: i == p,
        });
    }
    doors
}

#[test]
fn generated_doors_have_one_prize_and_contiguous_numbers() {
    for total in [3i32, 4, 7, 25] {
        for _ in 0..50 {
            let doors = generate_doors(total);
            assert_eq!(doors.len(), total as usize);
            let mut prizes = 0;
            for (i, door) in doors.iter().enumerate() {
                assert_eq!(door.number, i as i32);
                if door.prize {
                    prizes += 1;
                }
            }
            assert_eq!(prizes, 1);
        }
    }
}

#[test]
fn generated_prize_door_varies() {
    let mut seen_nonzero = false;
    for _ in 0..200 {
        let doors = generate_doors(10);
        let prize_pos = doors.iter().position(|d| d.prize).unwrap();
        if prize_pos != 0 {
            seen_nonzero = true;
        }
    }
    assert!(seen_nonzero);
}

#[test]
fn reveal_keeps_chosen_and_prize_doors() {
    for prize_at in 0..5 {
        for chosen in 0..5usize {
            for _ in 0..20 {
                let mut doors = Vec::new();
                for i in 0..5 {
                    doors.push(Door {
                        number: i,
                        prize: i == prize_at,
                    });
                }
                let after = reveal_door(doors, chosen);
                assert_eq!(after.len(), 4);
                assert!(after.iter().any(|d| d.number == chosen as i32));
                assert!(after.iter().any(|d| d.prize && d.number == prize_at));
            }
        }
    }
}

#[test]
fn reveal_with_chosen_on_prize_removes_a_losing_door() {
    for _ in 0..50 {
        let doors = three_doors_prize_at(0);
        let after = reveal_door(doors, 0);
        assert_eq!(after.len(), 2);
        assert!(after.iter().any(|d| d.number == 0 && d.prize));
        let removed_losing = after.iter().filter(|d| !d.prize).count();
        assert_eq!(removed_losing, 1);
    }
}

#[test]
fn swap_never_returns_held_door() {
    let doors = vec![
        Door {
            number: 0,
            prize: false,
        },
        Door {
            number: 2,
            prize: true,
        },
    ];
    for _ in 0..50 {
        let pos = choose_new_door(&doors, 0);
        assert_eq!(pos, 1);
        assert_eq!(doors[pos].number, 2);
    }
}

#[test]
fn stay_finds_held_door_after_shift() {
    // after a reveal removed door 0, the held door 1 sits at position 0
    let doors = vec![
        Door {
            number: 1,
            prize: false,
        },
        Door {
            number: 2,
            prize: true,
        },
    ];
    assert_eq!(choose_same_door(&doors, 1), 0);
    assert_eq!(choose_same_door(&doors, 2), 1);
}

#[test]
fn score_follows_the_prize_flag() {
    assert_eq!(monty_hall::game::score(true), Outcome::Win);
    assert_eq!(monty_hall::game::score(false), Outcome::Lose);
}

#[test]
fn play_returns_exactly_one_outcome() {
    for _ in 0..100 {
        let outcome = play(&Strategy::Swap, 3);
        assert!(outcome == Outcome::Win || outcome == Outcome::Lose);
    }
}

#[test]
fn strategy_from_known_strings() {
    assert_eq!(
        Strategy::from_string(&String::from("swap")),
        Ok(Strategy::Swap)
    );
    assert_eq!(
        Strategy::from_string(&String::from("stay")),
        Ok(Strategy::Stay)
    );
}

#[test]
fn strategy_from_unknown_string_fails() {
    assert_eq!(
        Strategy::from_string(&String::from("flip")),
        Err("not a valid strategy")
    );
    assert_eq!(
        Strategy::from_string(&String::from("Swap")),
        Err("not a valid strategy")
    );
    assert_eq!(
        Strategy::from_string(&String::from("")),
        Err("not a valid strategy")
    );
}

#[test]
fn parse_accepts_plain_decimals() {
    assert_eq!(parse_i32("0"), Ok(0));
    assert_eq!(parse_i32("42"), Ok(42));
    assert_eq!(parse_i32("007"), Ok(7));
    assert_eq!(parse_i32("-17"), Ok(-17));
    assert_eq!(parse_i32("+8"), Ok(8));
    assert_eq!(parse_i32("2147483647"), Ok(i32::MAX));
    assert_eq!(parse_i32("-2147483648"), Ok(i32::MIN));
}

#[test]
fn parse_rejects_malformed_and_oversized_input() {
    assert_eq!(parse_i32(""), Err("invalid number"));
    assert_eq!(parse_i32("-"), Err("invalid number"));
    assert_eq!(parse_i32("+"), Err("invalid number"));
    assert_eq!(parse_i32("12a"), Err("invalid number"));
    assert_eq!(parse_i32("1 2"), Err("invalid number"));
    assert_eq!(parse_i32("--5"), Err("invalid number"));
    assert_eq!(parse_i32("2147483648"), Err("invalid number"));
    assert_eq!(parse_i32("-2147483649"), Err("invalid number"));
    assert_eq!(parse_i32("99999999999999999999"), Err("invalid number"));
}

fn args(list: &[&str]) -> Vec<String> {
    list.iter().map(|s| s.to_string()).collect()
}

#[test]
fn config_from_valid_arguments() {
    let config = Config::new(&args(&["prog", "3", "swap", "10"])).unwrap();
    assert_eq!(config.total_doors, 3);
    assert_eq!(config.strategy, Strategy::Swap);
    assert_eq!(config.plays, 10);
}

#[test]
fn config_needs_three_arguments() {
    assert!(matches!(
        Config::new(&args(&["prog", "3", "swap"])),
        Err("not enough arguments")
    ));
    assert!(matches!(Config::new(&args(&[])), Err("not enough arguments")));
}

#[test]
fn config_rejects_bad_door_count_before_strategy() {
    assert!(matches!(
        Config::new(&args(&["prog", "three", "flip", "10"])),
        Err("invalid number")
    ));
}

#[test]
fn config_rejects_bad_strategy() {
    assert!(matches!(
        Config::new(&args(&["prog", "3", "flip", "10"])),
        Err("not a valid strategy")
    ));
}

#[test]
fn config_rejects_bad_play_count() {
    assert!(matches!(
        Config::new(&args(&["prog", "3", "stay", "ten"])),
        Err("invalid number")
    ));
}

#[test]
fn run_with_zero_plays_reports_nothing() {
    let config = Config {
        total_doors: 3,
        strategy: Strategy::Stay,
        plays: 0,
    };
    assert_eq!(
        monty_hall::run(config),
        Ok(RunReport { wins: 0, losses: 0 })
    );
}

#[test]
fn run_counts_always_sum_to_plays() {
    for plays in [1i32, 2, 50, 500] {
        let config = Config {
            total_doors: 4,
            strategy: Strategy::Swap,
            plays,
        };
        let report = monty_hall::run(config).unwrap();
        assert!(report.wins >= 0 && report.losses >= 0);
        assert_eq!(report.wins + report.losses, plays);
    }
}

#[test]
fn run_with_too_few_doors_fails() {
    for total_doors in [2i32, 1, 0, -4] {
        let config = Config {
            total_doors,
            strategy: Strategy::Stay,
            plays: 5,
        };
        assert_eq!(monty_hall::run(config), Err("not enough doors to reveal"));
    }
}

#[test]
fn stay_win_rate_converges_to_one_third() {
    let config = Config {
        total_doors: 3,
        strategy: Strategy::Stay,
        plays: 100_000,
    };
    let report = monty_hall::run(config).unwrap();
    let rate = report.wins as f64 / 100_000.0;
    assert!((rate - 1.0 / 3.0).abs() < 0.02, "stay rate {rate}");
}

#[test]
fn swap_win_rate_converges_to_two_thirds() {
    let config = Config {
        total_doors: 3,
        strategy: Strategy::Swap,
        plays: 100_000,
    };
    let report = monty_hall::run(config).unwrap();
    let rate = report.wins as f64 / 100_000.0;
    assert!((rate - 2.0 / 3.0).abs() < 0.02, "swap rate {rate}");
}

#[test]
fn swap_win_rate_with_five_doors() {
    // (total-1)/total * 1/(total-2) = 4/5 * 1/3
    let config = Config {
        total_doors: 5,
        strategy: Strategy::Swap,
        plays: 100_000,
    };
    let report = monty_hall::run(config).unwrap();
    let rate = report.wins as f64 / 100_000.0;
    assert!((rate - 4.0 / 15.0).abs() < 0.02, "swap rate {rate}");
}

#[test]
fn end_to_end_classic_swap_demonstration() {
    let config = Config::new(&args(&["prog", "3", "swap", "10000"])).unwrap();
    let report = monty_hall::run(config).unwrap();
    assert_eq!(report.wins + report.losses, 10000);
    assert!(report.wins >= 6400 && report.wins <= 7000, "wins {}", report.wins);
}
