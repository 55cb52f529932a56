use regex::Regex;
use yalter_bot::speedrun::{
    all_have_players, bests_reply, check_user, failure_reply, find_label,
    find_subcategory_variable, format_time, games_url, get_subcategories,
    get_subcategory_variables, handle_pb, handle_wr, leaderboard_queries, leaderboard_url,
    number_suffix, pb_arguments, per_game_categories, personal_bests, personal_bests_url,
    player_name, player_names, records_reply, select_game, world_record, CategoryData,
    CategoryVariable, Game, Leaderboard, LeaderboardQuery, Player, Run, RunTime, SpeedrunError,
    SubcategoryVariable, UserRuns, VariableValue, PB, WR,
};

fn value(id: &str, label: &str) -> VariableValue {
    VariableValue { id: id.to_string(), label: label.to_string() }
}

fn variable(id: &str, is_subcategory: bool, values: Vec<VariableValue>) -> CategoryVariable {
    CategoryVariable { id: id.to_string(), is_subcategory, values }
}

fn category(id: &str, name: &str, kind: &str, variables: Vec<CategoryVariable>) -> CategoryData {
    CategoryData { id: id.to_string(), name: name.to_string(), kind: kind.to_string(), variables }
}

fn pairs(list: &[(&str, &str)]) -> Vec<(String, String)> {
    list.iter().map(|(a, b)| (a.to_string(), b.to_string())).collect()
}

fn time(seconds: u64, nanoseconds: u32) -> RunTime {
    RunTime { seconds, nanoseconds }
}

#[test]
fn ordinal_suffixes() {
    for (n, suffix) in [
        (0u64, "th"), (1, "st"), (2, "nd"), (3, "rd"), (4, "th"), (9, "th"), (10, "th"),
        (11, "th"), (12, "th"), (13, "th"), (14, "th"), (21, "st"), (22, "nd"), (23, "rd"),
        (100, "th"), (101, "st"), (111, "th"), (112, "th"), (113, "th"), (121, "st"),
        (1000002, "nd"), (u64::MAX, "th"),
    ] {
        assert_eq!(suffix, number_suffix(n), "{}", n);
    }
}

#[test]
fn times_are_written_with_two_digits() {
    assert_eq!("00:00", format_time(&time(0, 0)));
    assert_eq!("00:59", format_time(&time(59, 0)));
    assert_eq!("01:00", format_time(&time(60, 0)));
    assert_eq!("59:59", format_time(&time(3599, 0)));
    assert_eq!("01:00:00", format_time(&time(3600, 0)));
    assert_eq!("01:01:01.500", format_time(&time(3661, 500_000_000)));
    assert_eq!("01:01.001", format_time(&time(61, 1_000_000)));
    assert_eq!("01:01", format_time(&time(61, 999_999)));
    assert_eq!("00:07.042", format_time(&time(7, 42_999_999)));
    assert_eq!("100:00:00", format_time(&time(360000, 0)));
    assert_eq!("5124095576030431:00:15.999", format_time(&time(u64::MAX, 999_999_999)));
}

#[test]
fn times_from_milliseconds() {
    assert_eq!(time(1, 500_000_000), RunTime::from_millis(1500));
    assert_eq!(time(0, 0), RunTime::from_millis(0));
    assert_eq!(time(0, 999_000_000), RunTime::from_millis(999));
    assert_eq!(time(18446744073709551, 615_000_000), RunTime::from_millis(u64::MAX));
    assert_eq!("20:34.567", format_time(&RunTime::from_millis(1_234_567)));
}

#[test]
fn subcategory_variables_of_a_category() {
    let c = category(
        "c",
        "Any%",
        "per-game",
        vec![
            variable("plain", false, vec![value("x", "X")]),
            variable("version", true, vec![value("v1", "1.0"), value("v2", "2.0")]),
            variable("empty", true, vec![]),
        ],
    );
    let found = get_subcategory_variables(&c);
    assert_eq!(
        vec![
            SubcategoryVariable {
                id: "version".to_string(),
                values: pairs(&[("v1", "1.0"), ("v2", "2.0")]),
            },
            SubcategoryVariable { id: "empty".to_string(), values: vec![] },
        ],
        found
    );
    assert!(get_subcategory_variables(&category("c", "n", "per-game", vec![])).is_empty());
    assert_eq!(Some(1), find_subcategory_variable(&c.variables));
    assert_eq!(None, find_subcategory_variable(&vec![variable("p", false, vec![])]));
}

#[test]
fn subcategories_of_a_run() {
    let variables = vec![
        SubcategoryVariable { id: "a".to_string(), values: pairs(&[("1", "One"), ("2", "Two")]) },
        SubcategoryVariable { id: "b".to_string(), values: pairs(&[("1", "Uno")]) },
        SubcategoryVariable { id: "a".to_string(), values: pairs(&[("3", "Three")]) },
    ];
    assert_eq!(
        vec!["Two".to_string(), "Uno".to_string()],
        get_subcategories(&pairs(&[("a", "2"), ("b", "1"), ("b", "2"), ("c", "1"), ("a", "3")]), &variables)
    );
    assert!(get_subcategories(&vec![], &variables).is_empty());
    assert_eq!(Some(&"One".to_string()), find_label(&variables, "a", "1"));
    assert_eq!(None, find_label(&variables, "a", "3"));
    assert_eq!(None, find_label(&variables, "z", "1"));
}

#[test]
fn game_selection() {
    assert_eq!(Err(SpeedrunError::NoSuchGame), select_game(vec![]));
    let game = |id: &str| Game { id: id.to_string(), name: "N".to_string(), categories: None };
    assert_eq!(Ok(game("first")), select_game(vec![game("first"), game("second")]));
}

#[test]
fn categories_that_cover_the_game() {
    assert_eq!(
        Err(SpeedrunError::Custom("The `categories` object is absent from the JSON.".to_string())),
        per_game_categories(None, "Game")
    );
    assert_eq!(
        Err(SpeedrunError::Custom("*Game* doesn't seem to have any categories. :/".to_string())),
        per_game_categories(Some(vec![category("a", "A", "per-level", vec![])]), "Game")
    );
    assert_eq!(
        Err(SpeedrunError::Custom("*Game* doesn't seem to have any categories. :/".to_string())),
        per_game_categories(Some(vec![]), "Game")
    );
    let kept = per_game_categories(
        Some(vec![
            category("a", "A", "per-level", vec![]),
            category("b", "B", "per-game", vec![]),
            category("c", "C", "per-game ", vec![]),
            category("d", "D", "per-game", vec![]),
        ]),
        "Game",
    )
    .unwrap();
    assert_eq!(vec!["b", "d"], kept.iter().map(|c| c.id.as_str()).collect::<Vec<&str>>());
}

#[test]
fn leaderboard_requests() {
    let categories = vec![
        category("c1", "Any%", "per-game", vec![variable("p", false, vec![value("x", "X")])]),
        category(
            "c2",
            "100%",
            "per-game",
            vec![
                variable("p", false, vec![]),
                variable("v", true, vec![value("a", "A"), value("b", "B")]),
                variable("w", true, vec![value("z", "Z")]),
            ],
        ),
        category("c3", "Low%", "per-game", vec![variable("e", true, vec![])]),
    ];
    let query = |c: &str, n: &str, v: Option<(&str, &str, &str)>| LeaderboardQuery {
        category_id: c.to_string(),
        category_name: n.to_string(),
        variable: v.map(|(a, b, c)| (a.to_string(), b.to_string(), c.to_string())),
    };
    assert_eq!(
        vec![
            query("c1", "Any%", None),
            query("c2", "100%", Some(("v", "a", "A"))),
            query("c2", "100%", Some(("v", "b", "B"))),
        ],
        leaderboard_queries(&categories)
    );
    assert!(leaderboard_queries(&vec![]).is_empty());
}

fn run(place: u64, milliseconds: u64, values: &[(&str, &str)], category: Option<CategoryData>) -> Run {
    Run { place, milliseconds, values: pairs(values), category }
}

fn player(international: Option<&str>, name: Option<&str>) -> Player {
    Player {
        international_name: international.map(|s| s.to_string()),
        name: name.map(|s| s.to_string()),
    }
}

#[test]
fn names_of_players() {
    assert_eq!("Inter", player_name(&player(Some("Inter"), Some("plain"))));
    assert_eq!("plain", player_name(&player(None, Some("plain"))));
    assert_eq!("nameless player", player_name(&player(None, None)));
    assert_eq!(
        vec!["a".to_string(), "nameless player".to_string()],
        player_names(&vec![player(Some("a"), None), player(None, None)])
    );
}

#[test]
fn world_record_of_a_leaderboard() {
    let query = LeaderboardQuery {
        category_id: "c".to_string(),
        category_name: "Any%".to_string(),
        variable: Some(("v".to_string(), "a".to_string(), "Label".to_string())),
    };
    let empty = Leaderboard { runs: vec![], players: vec![player(Some("a"), None)] };
    assert_eq!(None, world_record(&query, &empty));
    let board = Leaderboard {
        runs: vec![run(1, 61_500, &[], None), run(2, 99_000, &[], None)],
        players: vec![player(Some("a"), None), player(None, Some("b"))],
    };
    assert_eq!(
        Some(WR {
            category: "Any%".to_string(),
            subcategory: Some("Label".to_string()),
            players: vec!["a".to_string(), "b".to_string()],
            time: time(61, 500_000_000),
        }),
        world_record(&query, &board)
    );
    let plain = LeaderboardQuery { variable: None, ..query };
    assert_eq!(None, world_record(&plain, &board).unwrap().subcategory);
}

fn record(category: &str, subcategory: Option<&str>, players: &[&str], seconds: u64) -> WR {
    WR {
        category: category.to_string(),
        subcategory: subcategory.map(|s| s.to_string()),
        players: players.iter().map(|p| p.to_string()).collect(),
        time: time(seconds, 0),
    }
}

#[test]
fn world_record_replies() {
    assert_eq!("**Game** has no world records. :|", records_reply("Game", &vec![]));
    let records = vec![
        record("Any%", None, &["solo"], 61),
        record("100%", Some("Easy"), &["a", "b"], 3600),
        record("Co-op", None, &["a", "b", "c", "d"], 5),
    ];
    assert!(all_have_players(&records));
    assert_eq!(
        "World records for **Game**:\nAny%: **01:01** by solo!\n100% (Easy): **01:00:00** by a and b!\nCo-op: **00:05** by a, b, c and d!",
        records_reply("Game", &records)
    );
    assert_eq!(
        records_reply("Game", &records),
        handle_wr(&Ok(("Game".to_string(), records)))
    );
    assert!(!all_have_players(&vec![record("Any%", None, &[], 1)]));
    assert!(all_have_players(&vec![]));
}

#[test]
fn failure_replies() {
    let network = SpeedrunError::Network("timed out".to_string());
    assert_eq!(
        "Couldn't communicate with https://www.speedrun.com. :( (timed out)",
        failure_reply(&network, false)
    );
    assert_eq!("Network error: timed out", network.to_text());
    assert_eq!(
        "There's no such game on speedrun.com! :O",
        failure_reply(&SpeedrunError::NoSuchGame, true)
    );
    assert_eq!(
        "There's no such player on speedrun.com! :O",
        failure_reply(&SpeedrunError::NoSuchPlayer, true)
    );
    assert_eq!(
        "Something's broken. :/ (There's no such player on speedrun.com!)",
        failure_reply(&SpeedrunError::NoSuchPlayer, false)
    );
    assert_eq!(
        "Something's broken. :/ (JSON error: eof)",
        failure_reply(&SpeedrunError::Json("eof".to_string()), true)
    );
    assert_eq!(
        "Something's broken. :/ (custom)",
        failure_reply(&SpeedrunError::Custom("custom".to_string()), false)
    );
    assert_eq!("There's no such game on speedrun.com!", SpeedrunError::NoSuchGame.to_text());
    assert_eq!(
        "Something's broken. :/ (custom)",
        handle_wr(&Err(SpeedrunError::Custom("custom".to_string())))
    );
    assert_eq!(
        "There's no such player on speedrun.com! :O",
        handle_pb(Err(SpeedrunError::NoSuchPlayer))
    );
}

#[test]
fn runs_of_a_user() {
    assert_eq!(
        Err(SpeedrunError::NoSuchPlayer),
        check_user(UserRuns { status: Some(404), data: Some(vec![]) })
    );
    assert_eq!(
        Err(SpeedrunError::Custom("The `data` array is absent from the JSON.".to_string())),
        check_user(UserRuns { status: None, data: None })
    );
    assert_eq!(
        Ok(vec![run(1, 2, &[], None)]),
        check_user(UserRuns { status: None, data: Some(vec![run(1, 2, &[], None)]) })
    );
}

#[test]
fn personal_bests_of_runs() {
    let with_variable = || {
        category(
            "c",
            "Any%",
            "per-game",
            vec![variable("v", true, vec![value("a", "Easy"), value("b", "Hard")])],
        )
    };
    let runs = vec![
        run(3, 61_001, &[("v", "b"), ("w", "x")], Some(with_variable())),
        run(1, 5_000, &[], Some(category("l", "Level", "per-level", vec![]))),
        run(1, 7_000, &[], Some(category("d", "100%", "per-game", vec![]))),
    ];
    assert_eq!(
        Ok(vec![
            PB {
                category: "Any%".to_string(),
                subcategories: vec!["Hard".to_string()],
                time: time(61, 1_000_000),
                place: 3,
            },
            PB { category: "100%".to_string(), subcategories: vec![], time: time(7, 0), place: 1 },
        ]),
        personal_bests(&runs)
    );
    let broken = vec![
        run(1, 7_000, &[], Some(category("d", "100%", "per-game", vec![]))),
        run(1, 7_000, &[], None),
    ];
    assert_eq!(
        Err(SpeedrunError::Custom("The `category` object is absent from the JSON.".to_string())),
        personal_bests(&broken)
    );
    assert_eq!(Ok(vec![]), personal_bests(&vec![]));
}

fn best(category: &str, subcategories: &[&str], seconds: u64, place: u64) -> PB {
    PB {
        category: category.to_string(),
        subcategories: subcategories.iter().map(|s| s.to_string()).collect(),
        time: time(seconds, 0),
        place,
    }
}

#[test]
fn personal_best_replies() {
    assert_eq!(
        "**P** has no personal bests in **G**. :|",
        bests_reply("P", "G", &vec![])
    );
    let bests = vec![
        best("b", &[], 61, 1),
        best("a", &["Easy"], 5, 2),
        best("c", &["x", "y", "z"], 3600, 23),
        best("a", &[], 6, 111),
    ];
    assert_eq!(
        "**P**'s personal bests in **G**:\nb: **01:01** - 1st 🏆\na (Easy): **00:05** - 2nd\nc (x, y, z): **01:00:00** - 23rd\na: **00:06** - 111th",
        bests_reply("P", "G", &bests)
    );
    assert_eq!(
        "**P**'s personal bests in **G**:\na (Easy): **00:05** - 2nd\na: **00:06** - 111th\nb: **01:01** - 1st 🏆\nc (x, y, z): **01:00:00** - 23rd",
        handle_pb(Ok(("P".to_string(), "G".to_string(), bests)))
    );
}

#[test]
fn arguments_of_a_personal_best_request() {
    let found = |text: &str| pb_arguments(text);
    assert_eq!(Some(("YaLTeR".to_string(), "Half-Life".to_string())), found("YaLTeR Half-Life"));
    assert_eq!(Some(("p".to_string(), "a game  ".to_string())), found("  p \n a game  \nmore"));
    assert_eq!(Some(("p".to_string(), "".to_string())), found("p "));
    assert_eq!(None, found("p"));
    assert_eq!(None, found("  p"));
    assert_eq!(None, found(""));
    assert_eq!(None, found(" \n "));
    let pattern = Regex::new(r"\s*(\S+)\s+(.*)").unwrap();
    let pieces = ["", " ", "\n", "a", "b c", "\u{00A0}", "é👍", "\t", "x\ny", "\r\n", "  "];
    for a in pieces {
        for b in pieces {
            for c in pieces {
                let text = format!("{}{}{}", a, b, c);
                let expected = pattern.captures(&text).map(|caps| {
                    (caps.get(1).unwrap().as_str().to_string(), caps.get(2).unwrap().as_str().to_string())
                });
                assert_eq!(expected, pb_arguments(&text), "{:?}", text);
            }
        }
    }
}

#[test]
fn request_addresses() {
    assert_eq!(
        Ok("https://www.speedrun.com/api/v1/games?name=Half-Life+2%3A+%C3%A9&embed=categories.variables&max=1".to_string()),
        games_url("Half-Life 2: é", true)
    );
    assert_eq!(
        Ok("https://www.speedrun.com/api/v1/games?name=hl&max=1".to_string()),
        games_url("hl", false)
    );
    let query = LeaderboardQuery {
        category_id: "cat".to_string(),
        category_name: "Any%".to_string(),
        variable: Some(("var".to_string(), "val".to_string(), "Label".to_string())),
    };
    assert_eq!(
        Ok("https://www.speedrun.com/api/v1/leaderboards/game/category/cat?top=1&embed=players&var-var=val".to_string()),
        leaderboard_url("game", &query)
    );
    let plain = LeaderboardQuery { variable: None, ..query };
    assert_eq!(
        Ok("https://www.speedrun.com/api/v1/leaderboards/game/category/cat?top=1&embed=players".to_string()),
        leaderboard_url("game", &plain)
    );
    assert_eq!(
        Ok("https://www.speedrun.com/api/v1/users/YaLTeR/personal-bests?game=gid&embed=category.variables".to_string()),
        personal_bests_url("YaLTeR", "gid")
    );
    assert_eq!(
        Ok("https://www.speedrun.com/api/v1/users/a%20b/personal-bests?game=g&embed=category.variables".to_string()),
        personal_bests_url("a b", "g")
    );
}
