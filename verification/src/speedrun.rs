//! Leaderboard data and the texts that report world records and personal
//! bests.

use crate::seqs::{lemma_filter_push, lemma_flagged_is_filter, lemma_map_values_push, retain_flagged};
use crate::parser::{is_space, name_end, spaces_end};
use crate::sorting::{insertion_sorted, sort, strict_order, Ranked};
use crate::urls::{build_url, pair_views, request_url};
use crate::text::{
    append_chars, append_decimal, append_padded, decimal, lemma_text_order_equal,
    lemma_text_order_transitive, order_texts, padded_decimal, push_char, same_text, text_order,
    texts, to_chars,
};
use vstd::prelude::*;
use vstd::string::StringExecFns;

verus! {

/// A length of time: whole seconds, and the nanoseconds beyond them.
#[derive(Clone, Copy, PartialEq, Eq, Structural, Debug)]
pub struct RunTime {
    pub seconds: u64,
    pub nanoseconds: u32,
}

impl RunTime {
    /// The time that lasts `milliseconds`.
    pub fn from_millis(milliseconds: u64) -> (res: RunTime)
        ensures
            res.seconds == milliseconds / 1000,
            res.nanoseconds == (milliseconds % 1000) * 1_000_000,
    {
        RunTime {
            seconds: milliseconds / 1000,
            nanoseconds: ((milliseconds % 1000) as u32) * 1_000_000,
        }
    }
}

/// One value that a variable of a category can take.
#[derive(Debug, PartialEq, Eq)]
pub struct VariableValue {
    pub id: String,
    pub label: String,
}

/// A variable of a category, as the leaderboard service describes it.
#[derive(Debug, PartialEq, Eq)]
pub struct CategoryVariable {
    pub id: String,
    pub is_subcategory: bool,
    pub values: Vec<VariableValue>,
}

/// A category of a game.
#[derive(Debug, PartialEq, Eq)]
pub struct CategoryData {
    pub id: String,
    pub name: String,
    pub kind: String,
    pub variables: Vec<CategoryVariable>,
}

/// A variable that splits a category into subcategories: its identifier,
/// and for each value the identifier and the label.
#[derive(Debug, PartialEq, Eq)]
pub struct SubcategoryVariable {
    pub id: String,
    pub values: Vec<(String, String)>,
}

/// The ending that makes an ordinal of a number: "st", "nd", "rd" or "th".
pub open spec fn ordinal_suffix(n: nat) -> Seq<char> {
    let t = n % 100;
    if 11 <= t <= 13 {
        seq!['t', 'h']
    } else if t % 10 == 1 {
        seq!['s', 't']
    } else if t % 10 == 2 {
        seq!['n', 'd']
    } else if t % 10 == 3 {
        seq!['r', 'd']
    } else {
        seq!['t', 'h']
    }
}

/// A time as text: minutes and seconds with two digits each, hours in front
/// when there are any, and milliseconds behind when there are any.
pub open spec fn time_text(time: RunTime) -> Seq<char> {
    let total = time.seconds as nat;
    let hours = total / 3600;
    let minutes = (total / 60) % 60;
    let seconds = total % 60;
    let milliseconds = time.nanoseconds as nat / 1_000_000;
    let front = if hours > 0 {
        padded_decimal(hours, 2).push(':')
    } else {
        Seq::empty()
    };
    let back = if milliseconds > 0 {
        seq!['.'] + padded_decimal(milliseconds, 3)
    } else {
        Seq::empty()
    };
    front + padded_decimal(minutes, 2).push(':') + padded_decimal(seconds, 2) + back
}

/// The pairs of identifier and label of the values of a variable.
pub open spec fn value_labels(values: Seq<VariableValue>) -> Seq<(Seq<char>, Seq<char>)> {
    values.map_values(|v: VariableValue| (v.id@, v.label@))
}

/// The pairs of identifier and label that a subcategory variable holds.
pub open spec fn held_labels(values: Seq<(String, String)>) -> Seq<(Seq<char>, Seq<char>)> {
    values.map_values(|v: (String, String)| (v.0@, v.1@))
}

/// The subcategory variables among `variables`, in their order: each as
/// its identifier with the pairs of its values.
pub open spec fn subcategory_variables(variables: Seq<CategoryVariable>) -> Seq<
    (Seq<char>, Seq<(Seq<char>, Seq<char>)>),
> {
    variables.filter(|v: CategoryVariable| v.is_subcategory).map_values(
        |v: CategoryVariable| (v.id@, value_labels(v.values@)),
    )
}

/// What a list of subcategory variables holds, as plain values.
pub open spec fn held_variables(variables: Seq<SubcategoryVariable>) -> Seq<
    (Seq<char>, Seq<(Seq<char>, Seq<char>)>),
> {
    variables.map_values(|v: SubcategoryVariable| (v.id@, held_labels(v.values@)))
}

/// The ending that makes an ordinal of `n`.
pub fn number_suffix(n: u64) -> (res: String)
    ensures
        res@ == ordinal_suffix(n as nat),
{
    proof {
        reveal_strlit("th");
        reveal_strlit("st");
        reveal_strlit("nd");
        reveal_strlit("rd");
    }
    let t = n % 100;
    if t >= 11 && t <= 13 {
        assert("th"@ =~= seq!['t', 'h']);
        return "th".to_owned();
    }
    let t = t % 10;
    if t == 1 {
        assert("st"@ =~= seq!['s', 't']);
        "st".to_owned()
    } else if t == 2 {
        assert("nd"@ =~= seq!['n', 'd']);
        "nd".to_owned()
    } else if t == 3 {
        assert("rd"@ =~= seq!['r', 'd']);
        "rd".to_owned()
    } else {
        assert("th"@ =~= seq!['t', 'h']);
        "th".to_owned()
    }
}

/// Writes a time as text.
#[verifier::rlimit(40)]
pub fn format_time(time: &RunTime) -> (res: String)
    ensures
        res@ == time_text(*time),
{
    let total_seconds = time.seconds;
    let hours = total_seconds / 3600;
    let minutes = (total_seconds / 60) % 60;
    let seconds = total_seconds % 60;
    let milliseconds = time.nanoseconds / 1_000_000;
    let mut buf = String::new();
    if hours > 0 {
        append_padded(&mut buf, hours, 2);
        push_char(&mut buf, ':');
    }
    append_padded(&mut buf, minutes, 2);
    push_char(&mut buf, ':');
    append_padded(&mut buf, seconds, 2);
    if milliseconds > 0 {
        push_char(&mut buf, '.');
        append_padded(&mut buf, milliseconds as u64, 3);
    }
    assert(buf@ =~= time_text(*time));
    buf
}

/// Copies the values of a variable as pairs of identifier and label.
fn copy_values(values: &Vec<VariableValue>) -> (res: Vec<(String, String)>)
    ensures
        held_labels(res@) == value_labels(values@),
{
    let mut res: Vec<(String, String)> = Vec::new();
    let mut i: usize = 0;
    while i < values.len()
        invariant
            i <= values@.len(),
            held_labels(res@) == value_labels(values@.subrange(0, i as int)),
        decreases values@.len() - i,
    {
        let ghost held = res@;
        let pair = (values[i].id.clone(), values[i].label.clone());
        res.push(pair);
        proof {
            let before = values@.subrange(0, i as int);
            assert(values@.subrange(0, i + 1) =~= before.push(values@[i as int]));
            lemma_map_values_push(held, pair, |v: (String, String)| (v.0@, v.1@));
            lemma_map_values_push(before, values@[i as int], |v: VariableValue| (v.id@, v.label@));
            assert(held_labels(res@) =~= value_labels(values@.subrange(0, i + 1)));
        }
        i = i + 1;
    }
    proof {
        assert(values@.subrange(0, i as int) =~= values@);
    }
    res
}

/// The variables of a category that split it into subcategories.
pub fn get_subcategory_variables(category: &CategoryData) -> (res: Vec<SubcategoryVariable>)
    ensures
        held_variables(res@) == subcategory_variables(category.variables@),
{
    let variables = &category.variables;
    let mut res: Vec<SubcategoryVariable> = Vec::new();
    let mut i: usize = 0;
    while i < variables.len()
        invariant
            i <= variables@.len(),
            held_variables(res@) == subcategory_variables(variables@.subrange(0, i as int)),
        decreases variables@.len() - i,
    {
        let ghost before = variables@.subrange(0, i as int);
        proof {
            assert(variables@.subrange(0, i + 1) =~= before.push(variables@[i as int]));
            lemma_filter_push(before, variables@[i as int], |v: CategoryVariable| v.is_subcategory);
        }
        if variables[i].is_subcategory {
            let ghost held = res@;
            let values = copy_values(&variables[i].values);
            let variable = SubcategoryVariable { id: variables[i].id.clone(), values };
            res.push(variable);
            proof {
                lemma_map_values_push(
                    held,
                    variable,
                    |v: SubcategoryVariable| (v.id@, held_labels(v.values@)),
                );
                lemma_map_values_push(
                    before.filter(|v: CategoryVariable| v.is_subcategory),
                    variables@[i as int],
                    |v: CategoryVariable| (v.id@, value_labels(v.values@)),
                );
                assert(held_variables(res@) =~= subcategory_variables(variables@.subrange(0, i + 1)));
            }
        }
        i = i + 1;
    }
    proof {
        assert(variables@.subrange(0, i as int) =~= variables@);
    }
    res
}

/// A game, as the leaderboard service describes it.
#[derive(Debug, PartialEq, Eq)]
pub struct Game {
    pub id: String,
    pub name: String,
    /// The categories, where the answer holds them.
    pub categories: Option<Vec<CategoryData>>,
}

/// A player of a run: the international name or the plain name, as far as
/// the service gives them.
#[derive(Debug, PartialEq, Eq)]
pub struct Player {
    pub international_name: Option<String>,
    pub name: Option<String>,
}

/// A run on a leaderboard.
#[derive(Debug, PartialEq, Eq)]
pub struct Run {
    pub place: u64,
    /// The primary time of the run, in milliseconds.
    pub milliseconds: u64,
    /// For each variable that the run has a value of, the identifiers of
    /// the variable and of the value, ordered by the former.
    pub values: Vec<(String, String)>,
    /// The category, where the answer holds it.
    pub category: Option<CategoryData>,
}

/// A leaderboard: its runs, and the players of those runs.
#[derive(Debug, PartialEq, Eq)]
pub struct Leaderboard {
    pub runs: Vec<Run>,
    pub players: Vec<Player>,
}

/// What the service says of the personal bests of a user.
#[derive(Debug, PartialEq, Eq)]
pub struct UserRuns {
    /// The status of an answer that reports a failure.
    pub status: Option<u64>,
    pub data: Option<Vec<Run>>,
}

/// Why a lookup failed.
#[derive(Debug, PartialEq, Eq)]
pub enum SpeedrunError {
    /// The service could not be reached; the text says why.
    Network(String),
    /// The answer could not be read; the text says why.
    Json(String),
    NoSuchGame,
    NoSuchPlayer,
    Custom(String),
}

/// A world record.
#[derive(Debug, PartialEq, Eq)]
pub struct WR {
    pub category: String,
    pub subcategory: Option<String>,
    pub players: Vec<String>,
    pub time: RunTime,
}

/// A personal best.
#[derive(Debug, PartialEq, Eq)]
pub struct PB {
    pub category: String,
    pub subcategories: Vec<String>,
    pub time: RunTime,
    pub place: u64,
}

/// One request for a leaderboard: the category, and for a category with
/// subcategories the variable and the value that select one of them.
#[derive(Debug, PartialEq, Eq)]
pub struct LeaderboardQuery {
    pub category_id: String,
    pub category_name: String,
    pub variable: Option<(String, String, String)>,
}

/// The kind of a category that covers a whole game.
pub open spec fn per_game() -> Seq<char> {
    "per-game"@
}

/// What an error says of itself.
pub open spec fn error_text(error: SpeedrunError) -> Seq<char> {
    match error {
        SpeedrunError::Network(reason) => "Network error: "@ + reason@,
        SpeedrunError::Json(reason) => "JSON error: "@ + reason@,
        SpeedrunError::NoSuchGame => "There's no such game on speedrun.com!"@,
        SpeedrunError::NoSuchPlayer => "There's no such player on speedrun.com!"@,
        SpeedrunError::Custom(text) => text@,
    }
}

/// The reply to a lookup that failed. A missing player has a reply of its
/// own only where a player was asked for.
pub open spec fn failure_text(error: SpeedrunError, for_player: bool) -> Seq<char> {
    match error {
        SpeedrunError::Network(reason) => "Couldn't communicate with https://www.speedrun.com. :( ("@
            + reason@ + ")"@,
        SpeedrunError::NoSuchGame => "There's no such game on speedrun.com! :O"@,
        SpeedrunError::NoSuchPlayer => if for_player {
            "There's no such player on speedrun.com! :O"@
        } else {
            "Something's broken. :/ ("@ + error_text(error) + ")"@
        },
        _ => "Something's broken. :/ ("@ + error_text(error) + ")"@,
    }
}

impl SpeedrunError {
    /// Writes what the error says of itself.
    pub fn to_text(&self) -> (text: String)
        ensures
            text@ == error_text(*self),
    {
        let mut text = String::new();
        match self {
            SpeedrunError::Network(reason) => {
                text.append("Network error: ");
                text.append(reason.as_str());
            },
            SpeedrunError::Json(reason) => {
                text.append("JSON error: ");
                text.append(reason.as_str());
            },
            SpeedrunError::NoSuchGame => {
                text.append("There's no such game on speedrun.com!");
            },
            SpeedrunError::NoSuchPlayer => {
                text.append("There's no such player on speedrun.com!");
            },
            SpeedrunError::Custom(custom) => {
                text.append(custom.as_str());
            },
        }
        assert(text@ =~= error_text(*self));
        text
    }
}

/// Writes the reply to a lookup that failed.
pub fn failure_reply(error: &SpeedrunError, for_player: bool) -> (reply: String)
    ensures
        reply@ == failure_text(*error, for_player),
{
    let mut reply = String::new();
    match error {
        SpeedrunError::Network(reason) => {
            reply.append("Couldn't communicate with https://www.speedrun.com. :( (");
            reply.append(reason.as_str());
            reply.append(")");
        },
        SpeedrunError::NoSuchGame => {
            reply.append("There's no such game on speedrun.com! :O");
        },
        _ => {
            if for_player && matches!(error, SpeedrunError::NoSuchPlayer) {
                reply.append("There's no such player on speedrun.com! :O");
            } else {
                let text = error.to_text();
                reply.append("Something's broken. :/ (");
                reply.append(text.as_str());
                reply.append(")");
            }
        },
    }
    assert(reply@ =~= failure_text(*error, for_player));
    reply
}

/// The name that a player is shown under: the international name where
/// there is one, else the plain name, else a name for the nameless.
pub open spec fn player_name_of(player: Player) -> Seq<char> {
    match player.international_name {
        Some(name) => name@,
        None => match player.name {
            Some(name) => name@,
            None => "nameless player"@,
        },
    }
}

/// The name that a player is shown under.
pub fn player_name(player: &Player) -> (name: String)
    ensures
        name@ == player_name_of(*player),
{
    match &player.international_name {
        Some(name) => name.clone(),
        None => match &player.name {
            Some(name) => name.clone(),
            None => "nameless player".to_owned(),
        },
    }
}

/// The names that the players of a leaderboard are shown under.
pub fn player_names(players: &Vec<Player>) -> (names: Vec<String>)
    ensures
        texts(names@) == players@.map_values(|p: Player| player_name_of(p)),
{
    let mut names: Vec<String> = Vec::new();
    let mut i: usize = 0;
    while i < players.len()
        invariant
            i <= players@.len(),
            texts(names@) == players@.subrange(0, i as int).map_values(|p: Player| player_name_of(p)),
        decreases players@.len() - i,
    {
        let ghost held = names@;
        let ghost before = players@.subrange(0, i as int);
        let name = player_name(&players[i]);
        names.push(name);
        proof {
            assert(players@.subrange(0, i + 1) =~= before.push(players@[i as int]));
            lemma_map_values_push(held, name, |s: String| s@);
            lemma_map_values_push(before, players@[i as int], |p: Player| player_name_of(p));
        }
        i = i + 1;
    }
    assert(players@.subrange(0, i as int) =~= players@);
    names
}

/// Picks the game of an answer, which is the first one. An answer without
/// games means that there is no such game.
pub fn select_game(games: Vec<Game>) -> (res: Result<Game, SpeedrunError>)
    ensures
        games@.len() == 0 ==> res == Err::<Game, SpeedrunError>(SpeedrunError::NoSuchGame),
        games@.len() > 0 ==> res == Ok::<Game, SpeedrunError>(games@[0]),
{
    let mut games = games;
    if games.len() == 0 {
        return Err(SpeedrunError::NoSuchGame);
    }
    Ok(games.swap_remove(0))
}

/// The test that a category covers a whole game.
pub open spec fn covers_game() -> spec_fn(CategoryData) -> bool {
    |category: CategoryData| category.kind@ == per_game()
}

/// What is said of a game whose answer holds no categories.
pub open spec fn categories_absent_text() -> Seq<char> {
    "The `categories` object is absent from the JSON."@
}

/// What is said of a game without categories that cover the whole game.
pub open spec fn no_categories_text(game_name: Seq<char>) -> Seq<char> {
    "*"@ + game_name + "* doesn't seem to have any categories. :/"@
}

/// The categories of a game that cover the whole game, in their order. It
/// is an error when the answer holds no categories, and when none of them
/// covers the whole game.
pub fn per_game_categories(categories: Option<Vec<CategoryData>>, game_name: &str) -> (res: Result<
    Vec<CategoryData>,
    SpeedrunError,
>)
    ensures
        match categories {
            None => res matches Err(SpeedrunError::Custom(text)) && text@ == categories_absent_text(),
            Some(all) => if all@.filter(covers_game()).len() == 0 {
                res matches Err(SpeedrunError::Custom(text)) && text@ == no_categories_text(
                    game_name@,
                )
            } else {
                res matches Ok(kept) && kept@ == all@.filter(covers_game())
            },
        },
{
    match categories {
        None => Err(
            SpeedrunError::Custom("The `categories` object is absent from the JSON.".to_owned()),
        ),
        Some(all) => {
            let mut kept = all;
            let mut flags: Vec<bool> = Vec::new();
            let mut i: usize = 0;
            while i < kept.len()
                invariant
                    i <= kept@.len(),
                    flags@.len() == i,
                    forall|k: int| 0 <= k < i ==> flags@[k] == covers_game()(#[trigger] kept@[k]),
                decreases kept@.len() - i,
            {
                flags.push(same_text(kept[i].kind.as_str(), "per-game"));
                i = i + 1;
            }
            proof {
                lemma_flagged_is_filter(kept@, flags@, covers_game());
            }
            retain_flagged(&mut kept, &flags);
            if kept.len() == 0 {
                let mut text = String::new();
                text.append("*");
                text.append(game_name);
                text.append("* doesn't seem to have any categories. :/");
                Err(SpeedrunError::Custom(text))
            } else {
                Ok(kept)
            }
        },
    }
}

/// A request for a leaderboard as plain values: the identifier and the
/// name of the category, and the identifiers of the variable and of the
/// value with the label of the value, where the request names them.
pub type QueryView = (Seq<char>, Seq<char>, Option<(Seq<char>, Seq<char>, Seq<char>)>);

impl View for LeaderboardQuery {
    type V = QueryView;

    open spec fn view(&self) -> QueryView {
        (
            self.category_id@,
            self.category_name@,
            match self.variable {
                Some((variable, value, label)) => Some((variable@, value@, label@)),
                None => None,
            },
        )
    }
}

/// The views of a list of requests.
pub open spec fn query_views(queries: Seq<LeaderboardQuery>) -> Seq<QueryView> {
    queries.map_values(|q: LeaderboardQuery| q@)
}

/// The least position from `from` on of a variable that splits its
/// category into subcategories, or the number of variables.
pub open spec fn first_subcategory(variables: Seq<CategoryVariable>, from: int) -> int
    decreases variables.len() - from,
{
    if from >= variables.len() {
        variables.len() as int
    } else if variables[from].is_subcategory {
        from
    } else {
        first_subcategory(variables, from + 1)
    }
}

/// The requests for one category: one for each value of its first
/// subcategory variable, in the order of the values; or a single request
/// where it has no such variable.
pub open spec fn category_queries(category: CategoryData) -> Seq<QueryView> {
    let at = first_subcategory(category.variables@, 0);
    if at < category.variables@.len() {
        let variable = category.variables@[at];
        variable.values@.map_values(
            |value: VariableValue|
                (category.id@, category.name@, Some((variable.id@, value.id@, value.label@))),
        )
    } else {
        seq![(category.id@, category.name@, None)]
    }
}

/// The requests for a list of categories, category by category.
pub open spec fn queries_of(categories: Seq<CategoryData>) -> Seq<QueryView>
    decreases categories.len(),
{
    if categories.len() == 0 {
        Seq::empty()
    } else {
        queries_of(categories.drop_last()) + category_queries(categories.last())
    }
}

/// Finds the first variable that splits its category into subcategories.
pub fn find_subcategory_variable(variables: &Vec<CategoryVariable>) -> (res: Option<usize>)
    ensures
        match res {
            Some(at) => at < variables@.len() && at == first_subcategory(variables@, 0),
            None => first_subcategory(variables@, 0) == variables@.len(),
        },
{
    let mut i: usize = 0;
    while i < variables.len()
        invariant
            i <= variables@.len(),
            first_subcategory(variables@, 0) == first_subcategory(variables@, i as int),
        decreases variables@.len() - i,
    {
        if variables[i].is_subcategory {
            return Some(i);
        }
        i = i + 1;
    }
    None
}

/// Lists the requests for the leaderboards of the given categories.
#[verifier::rlimit(40)]
pub fn leaderboard_queries(categories: &Vec<CategoryData>) -> (queries: Vec<LeaderboardQuery>)
    ensures
        query_views(queries@) == queries_of(categories@),
{
    let mut queries: Vec<LeaderboardQuery> = Vec::new();
    let mut i: usize = 0;
    while i < categories.len()
        invariant
            i <= categories@.len(),
            query_views(queries@) == queries_of(categories@.subrange(0, i as int)),
        decreases categories@.len() - i,
    {
        let category = &categories[i];
        let ghost done = query_views(queries@);
        proof {
            let next = categories@.subrange(0, i + 1);
            assert(next.drop_last() =~= categories@.subrange(0, i as int));
            assert(next.last() == *category);
        }
        match find_subcategory_variable(&category.variables) {
            Some(at) => {
                let variable = &category.variables[at];
                let ghost f = |value: VariableValue|
                    (category.id@, category.name@, Some((variable.id@, value.id@, value.label@)));
                let mut k: usize = 0;
                while k < variable.values.len()
                    invariant
                        k <= variable.values@.len(),
                        f == |value: VariableValue|
                            (
                                category.id@,
                                category.name@,
                                Some((variable.id@, value.id@, value.label@)),
                            ),
                        query_views(queries@) == done + variable.values@.subrange(
                            0,
                            k as int,
                        ).map_values(f),
                    decreases variable.values@.len() - k,
                {
                    let value = &variable.values[k];
                    let ghost held = queries@;
                    let query = LeaderboardQuery {
                        category_id: category.id.clone(),
                        category_name: category.name.clone(),
                        variable: Some((variable.id.clone(), value.id.clone(), value.label.clone())),
                    };
                    queries.push(query);
                    proof {
                        lemma_map_values_push(held, query, |q: LeaderboardQuery| q@);
                        let before = variable.values@.subrange(0, k as int);
                        assert(variable.values@.subrange(0, k + 1) =~= before.push(*value));
                        lemma_map_values_push(before, *value, f);
                        assert(query@ == f(*value));
                        assert(query_views(queries@) =~= done + variable.values@.subrange(
                            0,
                            k + 1,
                        ).map_values(f));
                    }
                    k = k + 1;
                }
                proof {
                    assert(variable.values@.subrange(0, k as int) =~= variable.values@);
                }
            },
            None => {
                let ghost held = queries@;
                let query = LeaderboardQuery {
                    category_id: category.id.clone(),
                    category_name: category.name.clone(),
                    variable: None,
                };
                queries.push(query);
                proof {
                    lemma_map_values_push(held, query, |q: LeaderboardQuery| q@);
                    assert(query_views(queries@) =~= done + seq![query@]);
                }
            },
        }
        i = i + 1;
    }
    proof {
        assert(categories@.subrange(0, i as int) =~= categories@);
    }
    queries
}

/// The world record that a leaderboard shows for a request: none where
/// the leaderboard is empty; else the time of its first run, with the
/// names of all its players.
pub fn world_record(query: &LeaderboardQuery, leaderboard: &Leaderboard) -> (res: Option<WR>)
    ensures
        leaderboard.runs@.len() == 0 ==> res is None,
        leaderboard.runs@.len() > 0 ==> {
            &&& res is Some
            &&& res->0.category@ == query.category_name@
            &&& match query.variable {
                Some((_, _, label)) => res->0.subcategory is Some && res->0.subcategory->0@
                    == label@,
                None => res->0.subcategory is None,
            }
            &&& texts(res->0.players@) == leaderboard.players@.map_values(
                |p: Player| player_name_of(p),
            )
            &&& res->0.time.seconds == leaderboard.runs@[0].milliseconds / 1000
            &&& res->0.time.nanoseconds == (leaderboard.runs@[0].milliseconds % 1000) * 1_000_000
        },
{
    if leaderboard.runs.len() == 0 {
        return None;
    }
    let subcategory = match &query.variable {
        Some((_, _, label)) => Some(label.clone()),
        None => None,
    };
    Some(
        WR {
            category: query.category_name.clone(),
            subcategory,
            players: player_names(&leaderboard.players),
            time: RunTime::from_millis(leaderboard.runs[0].milliseconds),
        },
    )
}

/// Pairs of an identifier and a label, as plain values.
pub type PairsView = Seq<(Seq<char>, Seq<char>)>;

/// A subcategory variable as plain values: its identifier, and the pairs
/// of its values.
pub type VariableView = (Seq<char>, PairsView);

/// The least position from `from` on of a variable with the identifier
/// `id`, or the number of variables.
pub open spec fn variable_from(variables: Seq<VariableView>, id: Seq<char>, from: int) -> int
    decreases variables.len() - from,
{
    if from >= variables.len() {
        variables.len() as int
    } else if variables[from].0 == id {
        from
    } else {
        variable_from(variables, id, from + 1)
    }
}

/// The least position from `from` on of a pair whose first part is `id`,
/// or the number of pairs.
pub open spec fn pair_from(pairs: PairsView, id: Seq<char>, from: int) -> int
    decreases pairs.len() - from,
{
    if from >= pairs.len() {
        pairs.len() as int
    } else if pairs[from].0 == id {
        from
    } else {
        pair_from(pairs, id, from + 1)
    }
}

/// The label of the value `value` of the variable `variable`: that of the
/// first variable with that identifier, where it has such a value.
pub open spec fn label_of(variables: Seq<VariableView>, variable: Seq<char>, value: Seq<char>) -> Option<
    Seq<char>,
> {
    let at = variable_from(variables, variable, 0);
    if at < variables.len() {
        let pairs = variables[at].1;
        let found = pair_from(pairs, value, 0);
        if found < pairs.len() {
            Some(pairs[found].1)
        } else {
            None
        }
    } else {
        None
    }
}

/// The labels of the subcategories that a run belongs to: for each of its
/// values, in their order, the label that the subcategory variables give
/// it; values without one are passed over.
pub open spec fn subcategories_of(values: PairsView, variables: Seq<VariableView>) -> Seq<Seq<char>>
    decreases values.len(),
{
    if values.len() == 0 {
        Seq::empty()
    } else {
        let rest = subcategories_of(values.drop_last(), variables);
        match label_of(variables, values.last().0, values.last().1) {
            Some(label) => rest.push(label),
            None => rest,
        }
    }
}

/// Looks up the label of a value of a variable.
pub fn find_label<'a>(variables: &'a Vec<SubcategoryVariable>, variable: &str, value: &str) -> (res:
    Option<&'a String>)
    ensures
        match res {
            Some(label) => label_of(held_variables(variables@), variable@, value@) == Some(label@),
            None => label_of(held_variables(variables@), variable@, value@) is None,
        },
{
    let ghost views = held_variables(variables@);
    let mut i: usize = 0;
    while i < variables.len()
        invariant
            i <= variables@.len(),
            views == held_variables(variables@),
            variable_from(views, variable@, 0) == variable_from(views, variable@, i as int),
        decreases variables@.len() - i,
    {
        assert(views[i as int] == (variables@[i as int].id@, held_labels(variables@[i as int].values@)));
        if same_text(variables[i].id.as_str(), variable) {
            let pairs = &variables[i].values;
            let ghost labels = held_labels(pairs@);
            let mut k: usize = 0;
            while k < pairs.len()
                invariant
                    k <= pairs@.len(),
                    labels == held_labels(pairs@),
                    views == held_variables(variables@),
                    i < variables@.len(),
                    variable_from(views, variable@, 0) == i,
                    views[i as int].1 == labels,
                    pair_from(labels, value@, 0) == pair_from(labels, value@, k as int),
                decreases pairs@.len() - k,
            {
                assert(labels[k as int] == (pairs@[k as int].0@, pairs@[k as int].1@));
                if same_text(pairs[k].0.as_str(), value) {
                    return Some(&pairs[k].1);
                }
                k = k + 1;
            }
            return None;
        }
        i = i + 1;
    }
    None
}

/// The labels of the subcategories that a run with the given values
/// belongs to.
pub fn get_subcategories(values: &Vec<(String, String)>, subcategory_variables: &Vec<SubcategoryVariable>) -> (res:
    Vec<String>)
    ensures
        texts(res@) == subcategories_of(held_labels(values@), held_variables(subcategory_variables@)),
{
    let ghost pairs = held_labels(values@);
    let ghost variables = held_variables(subcategory_variables@);
    let mut res: Vec<String> = Vec::new();
    let mut i: usize = 0;
    while i < values.len()
        invariant
            i <= values@.len(),
            pairs == held_labels(values@),
            variables == held_variables(subcategory_variables@),
            texts(res@) == subcategories_of(pairs.subrange(0, i as int), variables),
        decreases values@.len() - i,
    {
        proof {
            let next = pairs.subrange(0, i + 1);
            assert(next.drop_last() =~= pairs.subrange(0, i as int));
            assert(next.last() == (values@[i as int].0@, values@[i as int].1@));
        }
        match find_label(subcategory_variables, values[i].0.as_str(), values[i].1.as_str()) {
            Some(label) => {
                let ghost held = res@;
                let copy = label.clone();
                res.push(copy);
                proof {
                    lemma_map_values_push(held, copy, |s: String| s@);
                }
            },
            None => {},
        }
        i = i + 1;
    }
    proof {
        assert(pairs.subrange(0, i as int) =~= pairs);
    }
    res
}

/// What is said of an answer without the list of runs.
pub open spec fn data_absent_text() -> Seq<char> {
    "The `data` array is absent from the JSON."@
}

/// What is said of a run whose answer holds no category.
pub open spec fn category_absent_text() -> Seq<char> {
    "The `category` object is absent from the JSON."@
}

/// The runs of an answer about a user. An answer with a status reports
/// that there is no such player; one without the list of runs is an error.
pub fn check_user(user: UserRuns) -> (res: Result<Vec<Run>, SpeedrunError>)
    ensures
        user.status is Some ==> res == Err::<Vec<Run>, SpeedrunError>(SpeedrunError::NoSuchPlayer),
        user.status is None && user.data is None ==> (res matches Err(SpeedrunError::Custom(text))
            && text@ == data_absent_text()),
        user.status is None && user.data is Some ==> res == Ok::<Vec<Run>, SpeedrunError>(
            user.data->0,
        ),
{
    if user.status.is_some() {
        return Err(SpeedrunError::NoSuchPlayer);
    }
    match user.data {
        Some(runs) => Ok(runs),
        None => Err(SpeedrunError::Custom("The `data` array is absent from the JSON.".to_owned())),
    }
}

/// A personal best as plain values: the category, the labels of the
/// subcategories, the time and the place.
pub type BestView = (Seq<char>, Seq<Seq<char>>, RunTime, u64);

impl View for PB {
    type V = BestView;

    open spec fn view(&self) -> BestView {
        (self.category@, texts(self.subcategories@), self.time, self.place)
    }
}

/// The views of a list of personal bests.
pub open spec fn best_views(bests: Seq<PB>) -> Seq<BestView> {
    bests.map_values(|b: PB| b@)
}

/// The time that lasts `milliseconds`.
pub open spec fn millis_time(milliseconds: u64) -> RunTime {
    RunTime {
        seconds: milliseconds / 1000,
        nanoseconds: ((milliseconds % 1000) * 1_000_000) as u32,
    }
}

/// The personal best that a run stands for. The run has a category.
pub open spec fn best_of(run: Run) -> BestView {
    let category = run.category->0;
    (
        category.name@,
        subcategories_of(held_labels(run.values@), subcategory_variables(category.variables@)),
        millis_time(run.milliseconds),
        run.place,
    )
}

/// The personal bests among the first `upto` runs: those of the runs in
/// categories that cover the whole game, in the order of the runs.
pub open spec fn bests_of(runs: Seq<Run>, upto: int) -> Seq<BestView>
    decreases upto,
{
    if upto <= 0 || upto > runs.len() {
        Seq::empty()
    } else if runs[upto - 1].category is Some && runs[upto - 1].category->0.kind@ == per_game() {
        bests_of(runs, upto - 1).push(best_of(runs[upto - 1]))
    } else {
        bests_of(runs, upto - 1)
    }
}

/// The least position from `from` on of a run without a category, or the
/// number of runs.
pub open spec fn uncategorised_from(runs: Seq<Run>, from: int) -> int
    decreases runs.len() - from,
{
    if from >= runs.len() {
        runs.len() as int
    } else if runs[from].category is None {
        from
    } else {
        uncategorised_from(runs, from + 1)
    }
}

/// The personal bests that a list of runs holds. A run without a category
/// makes the whole list an error.
pub fn personal_bests(runs: &Vec<Run>) -> (res: Result<Vec<PB>, SpeedrunError>)
    ensures
        uncategorised_from(runs@, 0) < runs@.len() ==> (res matches Err(SpeedrunError::Custom(text))
            && text@ == category_absent_text()),
        uncategorised_from(runs@, 0) >= runs@.len() ==> (res matches Ok(bests) && best_views(bests@)
            == bests_of(runs@, runs@.len() as int)),
{
    let mut bests: Vec<PB> = Vec::new();
    let mut i: usize = 0;
    while i < runs.len()
        invariant
            i <= runs@.len(),
            uncategorised_from(runs@, 0) == uncategorised_from(runs@, i as int),
            best_views(bests@) == bests_of(runs@, i as int),
        decreases runs@.len() - i,
    {
        let run = &runs[i];
        match &run.category {
            None => {
                return Err(
                    SpeedrunError::Custom(
                        "The `category` object is absent from the JSON.".to_owned(),
                    ),
                );
            },
            Some(category) => {
                if same_text(category.kind.as_str(), "per-game") {
                    let variables = get_subcategory_variables(category);
                    let ghost held = bests@;
                    let best = PB {
                        category: category.name.clone(),
                        subcategories: get_subcategories(&run.values, &variables),
                        time: RunTime::from_millis(run.milliseconds),
                        place: run.place,
                    };
                    bests.push(best);
                    proof {
                        lemma_map_values_push(held, best, |b: PB| b@);
                        assert(best@ == best_of(*run));
                    }
                }
            },
        }
        i = i + 1;
    }
    Ok(bests)
}

/// A world record as plain values: the category, the label of the
/// subcategory where there is one, the names of the players, and the time.
pub type RecordView = (Seq<char>, Option<Seq<char>>, Seq<Seq<char>>, RunTime);

impl View for WR {
    type V = RecordView;

    open spec fn view(&self) -> RecordView {
        (
            self.category@,
            match self.subcategory {
                Some(label) => Some(label@),
                None => None,
            },
            texts(self.players@),
            self.time,
        )
    }
}

/// The views of a list of world records.
pub open spec fn record_views(records: Seq<WR>) -> Seq<RecordView> {
    records.map_values(|r: WR| r@)
}

/// A list of names, each after a comma.
pub open spec fn comma_names(names: Seq<Seq<char>>) -> Seq<char>
    decreases names.len(),
{
    if names.len() == 0 {
        Seq::empty()
    } else {
        comma_names(names.drop_last()) + ", "@ + names.last()
    }
}

/// The players of a run, of whom there is at least one: the first by name,
/// the others after commas, and the last after "and".
pub open spec fn players_text(players: Seq<Seq<char>>) -> Seq<char> {
    if players.len() >= 2 {
        players[0] + comma_names(players.subrange(1, players.len() - 1)) + " and "@
            + players.last()
    } else {
        players[0]
    }
}

/// The line of one world record.
pub open spec fn record_line(record: RecordView) -> Seq<char> {
    "\n"@ + record.0 + (match record.1 {
        Some(label) => " ("@ + label + ")"@,
        None => Seq::empty(),
    }) + ": **"@ + time_text(record.3) + "** by "@ + players_text(record.2) + seq!['!']
}

/// The lines of a list of world records.
pub open spec fn record_lines(records: Seq<RecordView>) -> Seq<char>
    decreases records.len(),
{
    if records.len() == 0 {
        Seq::empty()
    } else {
        record_lines(records.drop_last()) + record_line(records.last())
    }
}

/// The reply that lists the world records of a game.
pub open spec fn records_text(game: Seq<char>, records: Seq<RecordView>) -> Seq<char> {
    if records.len() == 0 {
        "**"@ + game + "** has no world records. :|"@
    } else {
        "World records for **"@ + game + "**:"@ + record_lines(records)
    }
}

/// Every record names at least one player.
pub open spec fn have_players(records: Seq<WR>) -> bool {
    forall|i: int| 0 <= i < records.len() ==> (#[trigger] records[i]).players@.len() > 0
}

/// Tells whether every record names at least one player.
pub fn all_have_players(records: &Vec<WR>) -> (b: bool)
    ensures
        b == have_players(records@),
{
    let mut i: usize = 0;
    while i < records.len()
        invariant
            i <= records@.len(),
            forall|k: int| 0 <= k < i ==> (#[trigger] records@[k]).players@.len() > 0,
        decreases records@.len() - i,
    {
        if records[i].players.len() == 0 {
            return false;
        }
        i = i + 1;
    }
    true
}

/// Appends the players of a run to `buf`.
#[verifier::rlimit(40)]
fn append_players(buf: &mut String, players: &Vec<String>)
    requires
        players@.len() > 0,
    ensures
        final(buf)@ == old(buf)@ + players_text(texts(players@)),
{
    let ghost names = texts(players@);
    buf.append(players[0].as_str());
    if players.len() >= 2 {
        let ghost head = buf@;
        let last = players.len() - 1;
        let ghost middle = names.subrange(1, last as int);
        let mut i: usize = 1;
        while i < last
            invariant
                1 <= i <= last,
                last == players@.len() - 1,
                names == texts(players@),
                middle == names.subrange(1, last as int),
                buf@ == head + comma_names(middle.subrange(0, i - 1)),
            decreases last - i,
        {
            proof {
                let next = middle.subrange(0, i as int);
                assert(next.drop_last() =~= middle.subrange(0, i - 1));
                assert(next.last() == players@[i as int]@);
            }
            buf.append(", ");
            buf.append(players[i].as_str());
            i = i + 1;
            assert(buf@ =~= head + comma_names(middle.subrange(0, i - 1)));
        }
        assert(middle.subrange(0, i - 1) =~= middle);
        buf.append(" and ");
        buf.append(players[last].as_str());
        assert(buf@ =~= old(buf)@ + players_text(names));
    } else {
        assert(buf@ =~= old(buf)@ + players_text(names));
    }
}

/// Appends the line of one world record to `buf`.
#[verifier::rlimit(40)]
fn append_record(buf: &mut String, record: &WR)
    requires
        record.players@.len() > 0,
    ensures
        final(buf)@ == old(buf)@ + record_line(record@),
{
    buf.append("\n");
    buf.append(record.category.as_str());
    match &record.subcategory {
        Some(label) => {
            buf.append(" (");
            buf.append(label.as_str());
            buf.append(")");
        },
        None => {},
    }
    buf.append(": **");
    let time = format_time(&record.time);
    buf.append(time.as_str());
    buf.append("** by ");
    append_players(buf, &record.players);
    push_char(buf, '!');
    assert(buf@ =~= old(buf)@ + record_line(record@));
}

/// Writes the reply that lists the world records of a game. Every record
/// names at least one player.
pub fn records_reply(game: &str, records: &Vec<WR>) -> (reply: String)
    requires
        have_players(records@),
    ensures
        reply@ == records_text(game@, record_views(records@)),
{
    let mut buf = String::new();
    if records.len() == 0 {
        buf.append("**");
        buf.append(game);
        buf.append("** has no world records. :|");
        return buf;
    }
    buf.append("World records for **");
    buf.append(game);
    buf.append("**:");
    let ghost head = buf@;
    let ghost views = record_views(records@);
    let mut i: usize = 0;
    while i < records.len()
        invariant
            i <= records@.len(),
            have_players(records@),
            views == record_views(records@),
            buf@ == head + record_lines(views.subrange(0, i as int)),
        decreases records@.len() - i,
    {
        proof {
            let next = views.subrange(0, i + 1);
            assert(next.drop_last() =~= views.subrange(0, i as int));
            assert(next.last() == records@[i as int]@);
        }
        append_record(&mut buf, &records[i]);
        i = i + 1;
        assert(buf@ =~= head + record_lines(views.subrange(0, i as int)));
    }
    assert(views.subrange(0, i as int) =~= views);
    buf
}

/// Writes the reply to a request for world records, from the game's name
/// and its records, or from the error that the lookup ended with.
pub fn handle_wr(found: &Result<(String, Vec<WR>), SpeedrunError>) -> (reply: String)
    requires
        found is Ok ==> have_players(found->Ok_0.1@),
    ensures
        match *found {
            Ok((game, records)) => reply@ == records_text(game@, record_views(records@)),
            Err(error) => reply@ == failure_text(error, false),
        },
{
    match found {
        Ok((game, records)) => records_reply(game.as_str(), records),
        Err(error) => failure_reply(error, false),
    }
}

impl Ranked for PB {
    open spec fn rankable(&self) -> bool {
        true
    }

    /// Personal bests are listed by category.
    open spec fn ranks_before(&self, other: &Self) -> bool {
        text_order(self.category@, other.category@) < 0
    }

    fn is_before(&self, other: &Self) -> (b: bool) {
        order_texts(self.category.as_str(), other.category.as_str()) < 0
    }
}

/// Listing by category is a strict order.
pub proof fn lemma_bests_strict_order()
    ensures
        strict_order::<PB>(),
{
    assert forall|a: PB| !#[trigger] a.ranks_before(&a) by {
        lemma_text_order_equal(a.category@, a.category@);
    }
    assert forall|a: PB, b: PB, c: PB| #[trigger]
        a.ranks_before(&b) && #[trigger] b.ranks_before(&c) implies a.ranks_before(&c) by {
        lemma_text_order_transitive(a.category@, b.category@, c.category@);
    }
}

/// The labels of subcategories, each after a comma but the first.
pub open spec fn joined_labels(labels: Seq<Seq<char>>) -> Seq<char>
    decreases labels.len(),
{
    if labels.len() == 0 {
        Seq::empty()
    } else if labels.len() == 1 {
        labels[0]
    } else {
        joined_labels(labels.drop_last()) + ", "@ + labels.last()
    }
}

/// The line of one personal best.
pub open spec fn best_line(best: BestView) -> Seq<char> {
    "\n"@ + best.0 + bracketed_labels(best.1) + ": **"@ + time_text(best.2) + "** - "@
        + place_text(best.3)
}

/// The lines of a list of personal bests.
pub open spec fn best_lines(bests: Seq<BestView>) -> Seq<char>
    decreases bests.len(),
{
    if bests.len() == 0 {
        Seq::empty()
    } else {
        best_lines(bests.drop_last()) + best_line(bests.last())
    }
}

/// The reply that lists the personal bests of a player in a game, in the
/// order in which they are given.
pub open spec fn bests_text(player: Seq<char>, game: Seq<char>, bests: Seq<BestView>) -> Seq<char> {
    if bests.len() == 0 {
        "**"@ + player + "** has no personal bests in **"@ + game + "**. :|"@
    } else {
        "**"@ + player + "**'s personal bests in **"@ + game + "**:"@ + best_lines(bests)
    }
}

/// The labels of the subcategories in brackets, where there are any.
pub open spec fn bracketed_labels(labels: Seq<Seq<char>>) -> Seq<char> {
    if labels.len() > 0 {
        " ("@ + joined_labels(labels) + ")"@
    } else {
        Seq::empty()
    }
}

/// Appends the labels of the subcategories in brackets to `buf`.
#[verifier::rlimit(40)]
fn append_labels(buf: &mut String, subcategories: &Vec<String>)
    ensures
        final(buf)@ == old(buf)@ + bracketed_labels(texts(subcategories@)),
{
    let ghost labels = texts(subcategories@);
    if subcategories.len() > 0 {
        buf.append(" (");
        let ghost head = buf@;
        buf.append(subcategories[0].as_str());
        let mut i: usize = 1;
        proof {
            assert(labels.subrange(0, 1) =~= seq![labels[0]]);
        }
        while i < subcategories.len()
            invariant
                1 <= i <= subcategories@.len(),
                labels == texts(subcategories@),
                buf@ == head + joined_labels(labels.subrange(0, i as int)),
            decreases subcategories@.len() - i,
        {
            proof {
                let next = labels.subrange(0, i + 1);
                assert(next.drop_last() =~= labels.subrange(0, i as int));
                assert(next.last() == subcategories@[i as int]@);
            }
            buf.append(", ");
            buf.append(subcategories[i].as_str());
            i = i + 1;
            assert(buf@ =~= head + joined_labels(labels.subrange(0, i as int)));
        }
        assert(labels.subrange(0, i as int) =~= labels);
        buf.append(")");
        assert(buf@ =~= old(buf)@ + bracketed_labels(labels));
    } else {
        assert(buf@ =~= old(buf)@ + bracketed_labels(labels));
    }
}

/// The place of a personal best: the number as an ordinal, and a cup for
/// the first place.
pub open spec fn place_text(place: u64) -> Seq<char> {
    decimal(place as nat) + ordinal_suffix(place as nat) + (if place == 1 {
        " 🏆"@
    } else {
        Seq::empty()
    })
}

/// Appends the place of a personal best to `buf`.
fn append_place(buf: &mut String, place: u64)
    ensures
        final(buf)@ == old(buf)@ + place_text(place),
{
    append_decimal(buf, place);
    let suffix = number_suffix(place);
    buf.append(suffix.as_str());
    if place == 1 {
        buf.append(" 🏆");
    }
    assert(buf@ =~= old(buf)@ + place_text(place));
}

/// Appends the line of one personal best to `buf`.
#[verifier::rlimit(40)]
fn append_best(buf: &mut String, best: &PB)
    ensures
        final(buf)@ == old(buf)@ + best_line(best@),
{
    buf.append("\n");
    buf.append(best.category.as_str());
    append_labels(buf, &best.subcategories);
    buf.append(": **");
    let time = format_time(&best.time);
    buf.append(time.as_str());
    buf.append("** - ");
    append_place(buf, best.place);
    assert(buf@ =~= old(buf)@ + best_line(best@));
}

/// Writes the reply that lists the personal bests of a player in a game,
/// in the order in which they are given.
pub fn bests_reply(player: &str, game: &str, bests: &Vec<PB>) -> (reply: String)
    ensures
        reply@ == bests_text(player@, game@, best_views(bests@)),
{
    let mut buf = String::new();
    buf.append("**");
    buf.append(player);
    if bests.len() == 0 {
        buf.append("** has no personal bests in **");
        buf.append(game);
        buf.append("**. :|");
        return buf;
    }
    buf.append("**'s personal bests in **");
    buf.append(game);
    buf.append("**:");
    let ghost head = buf@;
    let ghost views = best_views(bests@);
    let mut i: usize = 0;
    while i < bests.len()
        invariant
            i <= bests@.len(),
            views == best_views(bests@),
            buf@ == head + best_lines(views.subrange(0, i as int)),
        decreases bests@.len() - i,
    {
        proof {
            let next = views.subrange(0, i + 1);
            assert(next.drop_last() =~= views.subrange(0, i as int));
            assert(next.last() == bests@[i as int]@);
        }
        append_best(&mut buf, &bests[i]);
        i = i + 1;
        assert(buf@ =~= head + best_lines(views.subrange(0, i as int)));
    }
    assert(views.subrange(0, i as int) =~= views);
    buf
}

/// Writes the reply to a request for personal bests, from the names of the
/// player and the game with the personal bests, which are sorted by
/// category, or from the error that the lookup ended with.
pub fn handle_pb(found: Result<(String, String, Vec<PB>), SpeedrunError>) -> (reply: String)
    ensures
        match found {
            Ok((player, game, bests)) => reply@ == bests_text(
                player@,
                game@,
                best_views(insertion_sorted(bests@)),
            ),
            Err(error) => reply@ == failure_text(error, true),
        },
{
    match found {
        Ok((player, game, bests)) => {
            let mut bests = bests;
            sort(&mut bests);
            bests_reply(player.as_str(), game.as_str(), &bests)
        },
        Err(error) => failure_reply(&error, true),
    }
}

/// The end of the line that begins at `from`: the least position from
/// `from` on of a line feed, or the length of the text.
pub open spec fn line_end(text: Seq<char>, from: int) -> int
    decreases text.len() - from,
{
    if from >= text.len() {
        text.len() as int
    } else if text[from] == '\n' {
        from
    } else {
        line_end(text, from + 1)
    }
}

/// What the arguments of a request for personal bests name: a player and
/// a game. The player is the first run of characters that are not
/// whitespace, and whitespace must follow it. The game is what follows
/// that whitespace, up to the end of the line.
pub open spec fn pb_arguments_of(text: Seq<char>) -> Option<(Seq<char>, Seq<char>)> {
    let start = spaces_end(text, 0);
    let end = name_end(text, start);
    let game = spaces_end(text, end);
    if start < end < text.len() {
        Some((text.subrange(start, end), text.subrange(game, line_end(text, game))))
    } else {
        None
    }
}

/// Reads the player and the game from the arguments of a request for
/// personal bests.
pub fn pb_arguments(text: &str) -> (res: Option<(String, String)>)
    ensures
        match res {
            Some((player, game)) => pb_arguments_of(text@) == Some((player@, game@)),
            None => pb_arguments_of(text@) is None,
        },
{
    let chars = to_chars(text);
    let mut start: usize = 0;
    while start < chars.len() && is_space(chars[start])
        invariant
            start <= chars@.len(),
            spaces_end(chars@, 0) == spaces_end(chars@, start as int),
        decreases chars@.len() - start,
    {
        start = start + 1;
    }
    let mut end: usize = start;
    while end < chars.len() && !is_space(chars[end])
        invariant
            start <= end <= chars@.len(),
            name_end(chars@, start as int) == name_end(chars@, end as int),
        decreases chars@.len() - end,
    {
        end = end + 1;
    }
    if !(start < end && end < chars.len()) {
        return None;
    }
    let mut game: usize = end;
    while game < chars.len() && is_space(chars[game])
        invariant
            end <= game <= chars@.len(),
            spaces_end(chars@, end as int) == spaces_end(chars@, game as int),
        decreases chars@.len() - game,
    {
        game = game + 1;
    }
    let mut stop: usize = game;
    while stop < chars.len() && chars[stop] != '\n'
        invariant
            game <= stop <= chars@.len(),
            line_end(chars@, game as int) == line_end(chars@, stop as int),
        decreases chars@.len() - stop,
    {
        stop = stop + 1;
    }
    let mut player_name = String::new();
    append_chars(&mut player_name, &chars, start, end);
    let mut game_name = String::new();
    append_chars(&mut game_name, &chars, game, stop);
    assert(player_name@ =~= chars@.subrange(start as int, end as int));
    assert(game_name@ =~= chars@.subrange(game as int, stop as int));
    Some((player_name, game_name))
}

/// The address that all requests to the leaderboard service start from.
pub open spec fn api_base() -> Seq<char> {
    "https://www.speedrun.com/api/v1/"@
}

/// The query of a request for a game by its name, which asks for one game
/// and, where wanted, for its categories and their variables.
pub open spec fn games_pairs(name: Seq<char>, with_categories: bool) -> Seq<(Seq<char>, Seq<char>)> {
    if with_categories {
        seq![("name"@, name), ("embed"@, "categories.variables"@), ("max"@, "1"@)]
    } else {
        seq![("name"@, name), ("max"@, "1"@)]
    }
}

/// The path of the leaderboard of a category of a game.
pub open spec fn leaderboard_path(game_id: Seq<char>, category_id: Seq<char>) -> Seq<char> {
    "leaderboards/"@ + game_id + "/category/"@ + category_id
}

/// The query of a request for a leaderboard, which asks for the first
/// place and its players, and names the subcategory where there is one.
pub open spec fn leaderboard_pairs(query: QueryView) -> Seq<(Seq<char>, Seq<char>)> {
    match query.2 {
        Some((variable, value, _)) => seq![
            ("top"@, "1"@),
            ("embed"@, "players"@),
            ("var-"@ + variable, value),
        ],
        None => seq![("top"@, "1"@), ("embed"@, "players"@)],
    }
}

/// The path of the personal bests of a player.
pub open spec fn personal_bests_path(player: Seq<char>) -> Seq<char> {
    "users/"@ + player + "/personal-bests"@
}

/// The query of a request for the personal bests in a game, which asks
/// for the category of each run and its variables.
pub open spec fn personal_bests_pairs(game_id: Seq<char>) -> Seq<(Seq<char>, Seq<char>)> {
    seq![("game"@, game_id), ("embed"@, "category.variables"@)]
}

/// Whether `res` is the address of the request, or an error where there is
/// no such address.
pub open spec fn is_request(
    res: Result<String, SpeedrunError>,
    path: Seq<char>,
    pairs: Seq<(Seq<char>, Seq<char>)>,
) -> bool {
    match res {
        Ok(address) => request_url(api_base(), path, pairs) == Some(address@),
        Err(error) => error is Custom && request_url(api_base(), path, pairs) is None,
    }
}

/// Turns the outcome of building an address into that of a lookup.
fn as_lookup(built: Result<String, String>) -> (res: Result<String, SpeedrunError>)
    ensures
        match built {
            Ok(address) => res == Ok::<String, SpeedrunError>(address),
            Err(reason) => res == Err::<String, SpeedrunError>(SpeedrunError::Custom(reason)),
        },
{
    match built {
        Ok(address) => Ok(address),
        Err(reason) => Err(SpeedrunError::Custom(reason)),
    }
}

/// Builds the address of the request for a game by its name.
pub fn games_url(name: &str, with_categories: bool) -> (res: Result<String, SpeedrunError>)
    ensures
        is_request(res, "games"@, games_pairs(name@, with_categories)),
{
    let mut pairs: Vec<(String, String)> = Vec::new();
    pairs.push(("name".to_owned(), name.to_owned()));
    if with_categories {
        pairs.push(("embed".to_owned(), "categories.variables".to_owned()));
    }
    pairs.push(("max".to_owned(), "1".to_owned()));
    assert(pair_views(pairs@) =~= games_pairs(name@, with_categories));
    as_lookup(build_url("https://www.speedrun.com/api/v1/", "games", &pairs))
}

/// Builds the address of the request for a leaderboard.
pub fn leaderboard_url(game_id: &str, query: &LeaderboardQuery) -> (res: Result<String, SpeedrunError>)
    ensures
        is_request(res, leaderboard_path(game_id@, query.category_id@), leaderboard_pairs(query@)),
{
    let mut path = String::new();
    path.append("leaderboards/");
    path.append(game_id);
    path.append("/category/");
    path.append(query.category_id.as_str());
    let mut pairs: Vec<(String, String)> = Vec::new();
    pairs.push(("top".to_owned(), "1".to_owned()));
    pairs.push(("embed".to_owned(), "players".to_owned()));
    match &query.variable {
        Some((variable, value, _)) => {
            let mut name = String::new();
            name.append("var-");
            name.append(variable.as_str());
            pairs.push((name, value.clone()));
        },
        None => {},
    }
    assert(pair_views(pairs@) =~= leaderboard_pairs(query@));
    as_lookup(build_url("https://www.speedrun.com/api/v1/", path.as_str(), &pairs))
}

/// Builds the address of the request for the personal bests of a player
/// in a game.
pub fn personal_bests_url(player: &str, game_id: &str) -> (res: Result<String, SpeedrunError>)
    ensures
        is_request(res, personal_bests_path(player@), personal_bests_pairs(game_id@)),
{
    let mut path = String::new();
    path.append("users/");
    path.append(player);
    path.append("/personal-bests");
    let mut pairs: Vec<(String, String)> = Vec::new();
    pairs.push(("game".to_owned(), game_id.to_owned()));
    pairs.push(("embed".to_owned(), "category.variables".to_owned()));
    assert(pair_views(pairs@) =~= personal_bests_pairs(game_id@));
    as_lookup(build_url("https://www.speedrun.com/api/v1/", path.as_str(), &pairs))
}

} // verus!
