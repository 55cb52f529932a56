//! Demo files that come as attachments: which attachments are demos, what
//! is read from a demo, and how it is reported.

use crate::model::{Attachment, Message};
use crate::seqs::{lemma_filter_push, lemma_map_values_push};
use crate::text::{texts, to_chars};
use vstd::prelude::*;
use vstd::string::StringExecFns;

verus! {

/// What is read from a demo: the directory of the game, the name of the
/// map, and for each entry of the directory its type and its time, the
/// latter as the bits of a number with a fraction.
#[derive(Debug, PartialEq, Eq)]
pub struct DemoSummary {
    pub game_dir: Vec<u8>,
    pub map_name: Vec<u8>,
    pub entries: Vec<(i32, u32)>,
}

/// What a demo is reported with: the game, the map, and the times of the
/// entries that were played.
#[derive(Debug, PartialEq, Eq)]
pub struct DemoFacts {
    pub game: Vec<u8>,
    pub map: Vec<u8>,
    pub times: Vec<u32>,
}

/// What the bytes of a file hold when they are read as a demo, and `None`
/// when they cannot be read as one.
pub uninterp spec fn parsed_demo(bytes: Seq<u8>) -> Option<(Seq<u8>, Seq<u8>, Seq<(i32, u32)>)>;

/// Calls `Demo::parse_without_frames` of hldemo. The contract gives what
/// it reads a name. Of an error only the text is kept.
#[verifier::external_body]
pub(crate) fn parse_demo(bytes: &Vec<u8>) -> (res: Result<DemoSummary, String>)
    ensures
        res is Ok ==> parsed_demo(bytes@) == Some(
            (res->Ok_0.game_dir@, res->Ok_0.map_name@, res->Ok_0.entries@),
        ),
        res is Err ==> parsed_demo(bytes@) is None,
{
    match hldemo::Demo::parse_without_frames(bytes) {
        Ok(demo) => Ok(
            DemoSummary {
                game_dir: demo.header.game_dir.to_vec(),
                map_name: demo.header.map_name.to_vec(),
                entries: demo.directory.entries.iter().map(
                    |e| (e.entry_type, e.track_time.to_bits()),
                ).collect(),
            },
        ),
        Err(error) => Err(error.to_string()),
    }
}

/// The ending of the name of a demo file.
pub open spec fn demo_suffix() -> Seq<char> {
    seq!['.', 'd', 'e', 'm']
}

/// Whether a file name ends like that of a demo file.
pub open spec fn is_demo_name(name: Seq<char>) -> bool {
    name.len() >= 4 && name.subrange(name.len() - 4, name.len() as int) == demo_suffix()
}

/// The test that an attachment is a demo file.
pub open spec fn is_demo() -> spec_fn(Attachment) -> bool {
    |attachment: Attachment| is_demo_name(attachment.filename@)
}

/// The addresses of the attachments that are demo files, in their order.
pub open spec fn demo_urls(attachments: Seq<Attachment>) -> Seq<Seq<char>> {
    attachments.filter(is_demo()).map_values(|attachment: Attachment| attachment.url@)
}

/// Tells whether a file name ends like that of a demo file.
pub fn ends_with_dem(name: &str) -> (b: bool)
    ensures
        b == is_demo_name(name@),
{
    let chars = to_chars(name);
    let n = chars.len();
    if n < 4 {
        return false;
    }
    let b = chars[n - 4] == '.' && chars[n - 3] == 'd' && chars[n - 2] == 'e' && chars[n - 1] == 'm';
    proof {
        let tail = name@.subrange(n - 4, n as int);
        if b {
            assert(tail =~= demo_suffix());
        } else {
            assert(tail[0] == chars@[n - 4]);
            assert(tail[1] == chars@[n - 3]);
            assert(tail[2] == chars@[n - 2]);
            assert(tail[3] == chars@[n - 1]);
        }
    }
    b
}

/// Lists the addresses of the attachments of a message that are demo
/// files.
pub fn handle_attachment(message: &Message) -> (urls: Vec<String>)
    ensures
        texts(urls@) == demo_urls(message.attachments@),
{
    let attachments = &message.attachments;
    let mut urls: Vec<String> = Vec::new();
    let mut i: usize = 0;
    while i < attachments.len()
        invariant
            i <= attachments@.len(),
            texts(urls@) == demo_urls(attachments@.subrange(0, i as int)),
        decreases attachments@.len() - i,
    {
        let ghost before = attachments@.subrange(0, i as int);
        proof {
            assert(attachments@.subrange(0, i + 1) =~= before.push(attachments@[i as int]));
            lemma_filter_push(before, attachments@[i as int], is_demo());
        }
        if ends_with_dem(attachments[i].filename.as_str()) {
            let ghost held = urls@;
            let url = attachments[i].url.clone();
            urls.push(url);
            proof {
                lemma_map_values_push(held, url, |s: String| s@);
                lemma_map_values_push(
                    before.filter(is_demo()),
                    attachments@[i as int],
                    |attachment: Attachment| attachment.url@,
                );
            }
        }
        i = i + 1;
    }
    proof {
        assert(attachments@.subrange(0, i as int) =~= attachments@);
    }
    urls
}

/// The least position from `from` on of a zero byte, or the number of
/// bytes.
pub open spec fn nul_from(bytes: Seq<u8>, from: int) -> int
    decreases bytes.len() - from,
{
    if from >= bytes.len() {
        bytes.len() as int
    } else if bytes[from] == 0 {
        from
    } else {
        nul_from(bytes, from + 1)
    }
}

/// The bytes before the first zero byte.
pub fn until_nul(bytes: &Vec<u8>) -> (res: Vec<u8>)
    ensures
        res@ == bytes@.subrange(0, nul_from(bytes@, 0)),
{
    let mut res: Vec<u8> = Vec::new();
    let mut i: usize = 0;
    while i < bytes.len() && bytes[i] != 0
        invariant
            i <= bytes@.len(),
            nul_from(bytes@, 0) == nul_from(bytes@, i as int),
            res@ == bytes@.subrange(0, i as int),
        decreases bytes@.len() - i,
    {
        res.push(bytes[i]);
        i = i + 1;
        assert(res@ =~= bytes@.subrange(0, i as int));
    }
    res
}

/// The test that an entry of the directory was played.
pub open spec fn was_played() -> spec_fn((i32, u32)) -> bool {
    |entry: (i32, u32)| entry.0 != 0
}

/// The times of the entries that were played, in their order.
pub open spec fn played_times_of(entries: Seq<(i32, u32)>) -> Seq<u32> {
    entries.filter(was_played()).map_values(|entry: (i32, u32)| entry.1)
}

/// Lists the times of the entries that were played.
pub fn played_times(entries: &Vec<(i32, u32)>) -> (times: Vec<u32>)
    ensures
        times@ == played_times_of(entries@),
{
    let mut times: Vec<u32> = Vec::new();
    let mut i: usize = 0;
    while i < entries.len()
        invariant
            i <= entries@.len(),
            times@ == played_times_of(entries@.subrange(0, i as int)),
        decreases entries@.len() - i,
    {
        let ghost before = entries@.subrange(0, i as int);
        proof {
            assert(entries@.subrange(0, i + 1) =~= before.push(entries@[i as int]));
            lemma_filter_push(before, entries@[i as int], was_played());
            lemma_map_values_push(
                before.filter(was_played()),
                entries@[i as int],
                |entry: (i32, u32)| entry.1,
            );
        }
        if entries[i].0 != 0 {
            times.push(entries[i].1);
        }
        i = i + 1;
    }
    proof {
        assert(entries@.subrange(0, i as int) =~= entries@);
    }
    times
}

/// What is said of bytes that cannot be read as a demo.
pub open spec fn parse_failure_text(reason: Seq<char>) -> Seq<char> {
    "error parsing demo: "@ + reason
}

/// What a demo is reported with, given what was read from it.
pub fn summarise(summary: &DemoSummary) -> (facts: DemoFacts)
    ensures
        facts.game@ == summary.game_dir@.subrange(0, nul_from(summary.game_dir@, 0)),
        facts.map@ == summary.map_name@.subrange(0, nul_from(summary.map_name@, 0)),
        facts.times@ == played_times_of(summary.entries@),
{
    DemoFacts {
        game: until_nul(&summary.game_dir),
        map: until_nul(&summary.map_name),
        times: played_times(&summary.entries),
    }
}

/// Reads the bytes of a file as a demo. Where they cannot be read as one,
/// the text says why.
pub fn read_demo(bytes: &Vec<u8>) -> (res: Result<DemoFacts, String>)
    ensures
        match parsed_demo(bytes@) {
            Some((game_dir, map_name, entries)) => {
                &&& res is Ok
                &&& res->Ok_0.game@ == game_dir.subrange(0, nul_from(game_dir, 0))
                &&& res->Ok_0.map@ == map_name.subrange(0, nul_from(map_name, 0))
                &&& res->Ok_0.times@ == played_times_of(entries)
            },
            None => res is Err && exists|reason: Seq<char>| res->Err_0@ == parse_failure_text(reason),
        },
{
    match parse_demo(bytes) {
        Ok(summary) => Ok(summarise(&summary)),
        Err(reason) => {
            let mut text = String::new();
            text.append("error parsing demo: ");
            text.append(reason.as_str());
            assert(text@ == parse_failure_text(reason@));
            Err(text)
        },
    }
}

/// The report on a demo.
pub open spec fn report_text(game: Seq<char>, map: Seq<char>, time: Seq<char>) -> Seq<char> {
    "```\nGame: "@ + game + "\nMap:  "@ + map + "\nTime: "@ + time + "s\n```"@
}

/// Writes the report on a demo, from the game, the map, and the time that
/// was played, each as text.
pub fn demo_report(game: &str, map: &str, time: &str) -> (report: String)
    ensures
        report@ == report_text(game@, map@, time@),
{
    let mut report = String::new();
    report.append("```\nGame: ");
    report.append(game);
    report.append("\nMap:  ");
    report.append(map);
    report.append("\nTime: ");
    report.append(time);
    report.append("s\n```");
    report
}

} // verus!
