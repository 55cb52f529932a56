//! Answers of the computing service, and what is sent for them.

use crate::catalog::{module_view, wolframalpha, wolframalpha_declared};
use crate::registry::ModuleDescriptor;
use crate::text::{same_text, texts};
use crate::urls::{append_pairs, pair_views, with_pairs};
use vstd::prelude::*;
use vstd::string::StringExecFns;

verus! {

/// A part of a pod: the address of its image and its plain text, as far as
/// the answer holds them.
#[derive(Debug, PartialEq, Eq)]
pub struct SubPod {
    pub image: Option<String>,
    pub plaintext: Option<String>,
}

/// A pod of an answer.
#[derive(Debug, PartialEq, Eq)]
pub struct Pod {
    pub title: String,
    pub subpods: Vec<SubPod>,
}

/// An answer of the service.
#[derive(Debug, PartialEq, Eq)]
pub struct QueryResult {
    pub success: bool,
    pub error: bool,
    pub pods: Vec<Pod>,
    /// What the service thinks was meant, where the answer says so.
    pub did_you_means: Option<Vec<String>>,
}

/// Something to send.
#[derive(Debug, PartialEq, Eq)]
pub enum Outgoing {
    /// The image at the address `source`, under the name `filename`, with
    /// a text.
    Image { text: String, source: String, filename: String },
    /// A text.
    Text(String),
}

/// Something to send, as plain values.
pub enum OutgoingView {
    Image { text: Seq<char>, source: Seq<char>, filename: Seq<char> },
    Text(Seq<char>),
}

impl View for Outgoing {
    type V = OutgoingView;

    open spec fn view(&self) -> OutgoingView {
        match *self {
            Outgoing::Image { text, source, filename } => OutgoingView::Image {
                text: text@,
                source: source@,
                filename: filename@,
            },
            Outgoing::Text(text) => OutgoingView::Text(text@),
        }
    }
}

/// The views of a list of things to send.
pub open spec fn outgoing_views(list: Seq<Outgoing>) -> Seq<OutgoingView> {
    list.map_values(|o: Outgoing| o@)
}

/// The address that queries go to.
pub open spec fn api_base() -> Seq<char> {
    "http://api.wolframalpha.com/v2/query"@
}

/// The query of a request: who asks, and what.
pub open spec fn query_pairs(appid: Seq<char>, input: Seq<char>) -> Seq<(Seq<char>, Seq<char>)> {
    seq![("appid"@, appid), ("input"@, input)]
}

/// Builds the address of a request. Where there is no such address, the
/// text says why.
pub fn query_url(appid: &str, input: &str) -> (res: Result<String, String>)
    ensures
        match res {
            Ok(address) => with_pairs(api_base(), query_pairs(appid@, input@), 2) == Some(address@),
            Err(_) => with_pairs(api_base(), query_pairs(appid@, input@), 2) is None,
        },
{
    let mut pairs: Vec<(String, String)> = Vec::new();
    pairs.push(("appid".to_owned(), appid.to_owned()));
    pairs.push(("input".to_owned(), input.to_owned()));
    assert(pair_views(pairs@) =~= query_pairs(appid@, input@));
    append_pairs("http://api.wolframalpha.com/v2/query".to_owned(), &pairs)
}

/// What is said when the identifier of the application is not configured.
pub open spec fn missing_appid_text() -> Seq<char> {
    "Please set the YALTER_BOT_WOLFRAMALPHA_APPID environment variable"@
}

/// Makes the module, which needs the identifier of the application as it
/// is configured.
pub fn new(appid: Option<&str>) -> (res: Result<ModuleDescriptor, String>)
    ensures
        match appid {
            Some(_) => res is Ok && module_view(res->Ok_0) == wolframalpha_declared(),
            None => res is Err && res->Err_0@ == missing_appid_text(),
        },
{
    match appid {
        Some(_) => Ok(wolframalpha()),
        None => Err("Please set the YALTER_BOT_WOLFRAMALPHA_APPID environment variable".to_owned()),
    }
}

/// What is said when the service reports an error.
pub open spec fn invalid_request_text() -> Seq<char> {
    "Invalid request, call YaLTeR!"@
}

/// What is said when the answer holds no pod with a result.
pub open spec fn no_result_text() -> Seq<char> {
    "Wolfram!Alpha didn't return a result pod. This probably means that the standard computation time exceeded."@
}

/// The lines that name what may have been meant, one by one.
pub open spec fn meant_lines(meant: Seq<Seq<char>>) -> Seq<char>
    decreases meant.len(),
{
    if meant.len() == 0 {
        Seq::empty()
    } else {
        meant_lines(meant.drop_last()) + "\n• `"@ + meant.last() + "`"@
    }
}

/// What is said when the service did not understand the input.
pub open spec fn not_understood_text(meant: Option<Seq<Seq<char>>>) -> Seq<char> {
    "Wolphram!Alpha couldn't understand your input. :/"@ + (match meant {
        Some(list) => if list.len() == 1 {
            "\n\nDid you mean `"@ + list[0] + "`?"@
        } else if list.len() > 1 {
            "\n\nDid you mean:"@ + meant_lines(list)
        } else {
            Seq::empty()
        },
        None => Seq::empty(),
    })
}

/// Whether a pod repeats the input as the service read it.
pub open spec fn is_interpretation(pod: Pod) -> bool {
    pod.title@ == "Input"@ || pod.title@ == "Input interpretation"@
}

/// The least position from `from` on of a pod that repeats the input, or,
/// with `wanted` false, of one that does not; the number of pods when
/// there is none.
pub open spec fn pod_from(pods: Seq<Pod>, wanted: bool, from: int) -> int
    decreases pods.len() - from,
{
    if from >= pods.len() {
        pods.len() as int
    } else if is_interpretation(pods[from]) == wanted {
        from
    } else {
        pod_from(pods, wanted, from + 1)
    }
}

/// The least position from `from` on of a part with a plain text that is
/// not empty, or the number of parts.
pub open spec fn plaintext_from(subpods: Seq<SubPod>, from: int) -> int
    decreases subpods.len() - from,
{
    if from >= subpods.len() {
        subpods.len() as int
    } else if subpods[from].plaintext is Some && subpods[from].plaintext->0@.len() > 0 {
        from
    } else {
        plaintext_from(subpods, from + 1)
    }
}

/// The least position from `from` on of a part with an image, or the
/// number of parts.
pub open spec fn image_from(subpods: Seq<SubPod>, from: int) -> int
    decreases subpods.len() - from,
{
    if from >= subpods.len() {
        subpods.len() as int
    } else if subpods[from].image is Some {
        from
    } else {
        image_from(subpods, from + 1)
    }
}

/// The text that goes with a pod: the heading, and the first plain text of
/// the pod that is not empty.
pub open spec fn pod_text(pod: Pod, heading: Seq<char>) -> Seq<char> {
    let at = plaintext_from(pod.subpods@, 0);
    if at < pod.subpods@.len() {
        heading + "\n```\n"@ + pod.subpods@[at].plaintext->0@ + "\n```"@
    } else {
        heading
    }
}

/// What is sent for a pod: its first image with the text of the pod, and
/// nothing for a pod without an image.
pub open spec fn pod_outgoing(pod: Pod, heading: Seq<char>, filename: Seq<char>) -> Seq<OutgoingView> {
    let at = image_from(pod.subpods@, 0);
    if at < pod.subpods@.len() {
        seq![
            OutgoingView::Image {
                text: pod_text(pod, heading),
                source: pod.subpods@[at].image->0@,
                filename,
            },
        ]
    } else {
        Seq::empty()
    }
}

/// What is sent for the pods of an answer: first the pod that repeats the
/// input, where there is one; then the first other pod, or a text that
/// says that there is none.
pub open spec fn pods_outgoing(pods: Seq<Pod>) -> Seq<OutgoingView> {
    let input = pod_from(pods, true, 0);
    let result = pod_from(pods, false, 0);
    (if input < pods.len() {
        pod_outgoing(pods[input], "Input interpretation:"@, "input_interpretation.gif"@)
    } else {
        Seq::empty()
    }) + (if result < pods.len() {
        pod_outgoing(pods[result], "Result:"@, "result.gif"@)
    } else {
        seq![OutgoingView::Text(no_result_text())]
    })
}

/// What an answer leads to: the things to send, or the text that says
/// what went wrong.
pub open spec fn answer_of(result: QueryResult) -> Result<Seq<OutgoingView>, Seq<char>> {
    if result.error {
        Err(invalid_request_text())
    } else if !result.success {
        Err(
            not_understood_text(
                match result.did_you_means {
                    Some(list) => Some(texts(list@)),
                    None => None,
                },
            ),
        )
    } else {
        Ok(pods_outgoing(result.pods@))
    }
}

/// Finds the first pod that repeats the input, or the first that does not.
pub fn find_pod(pods: &Vec<Pod>, wanted: bool) -> (res: Option<usize>)
    ensures
        match res {
            Some(at) => at < pods@.len() && at == pod_from(pods@, wanted, 0),
            None => pod_from(pods@, wanted, 0) == pods@.len(),
        },
{
    let mut i: usize = 0;
    while i < pods.len()
        invariant
            i <= pods@.len(),
            pod_from(pods@, wanted, 0) == pod_from(pods@, wanted, i as int),
        decreases pods@.len() - i,
    {
        let title = pods[i].title.as_str();
        let repeats = same_text(title, "Input") || same_text(title, "Input interpretation");
        if repeats == wanted {
            return Some(i);
        }
        i = i + 1;
    }
    None
}

/// Writes the text that goes with a pod.
pub fn pod_message(pod: &Pod, heading: &str) -> (text: String)
    ensures
        text@ == pod_text(*pod, heading@),
{
    let mut text = heading.to_owned();
    let mut i: usize = 0;
    while i < pod.subpods.len()
        invariant
            i <= pod.subpods@.len(),
            text@ == heading@,
            plaintext_from(pod.subpods@, 0) == plaintext_from(pod.subpods@, i as int),
        decreases pod.subpods@.len() - i,
    {
        match &pod.subpods[i].plaintext {
            Some(plaintext) => {
                if !plaintext.as_str().is_empty() {
                    text.append("\n```\n");
                    text.append(plaintext.as_str());
                    text.append("\n```");
                    return text;
                }
            },
            None => {},
        }
        i = i + 1;
    }
    text
}

/// Adds what is sent for a pod to `list`.
pub fn send_pod_contents(list: &mut Vec<Outgoing>, pod: &Pod, heading: &str, filename: &str)
    ensures
        outgoing_views(final(list)@) == outgoing_views(old(list)@) + pod_outgoing(
            *pod,
            heading@,
            filename@,
        ),
{
    let mut i: usize = 0;
    while i < pod.subpods.len()
        invariant
            i <= pod.subpods@.len(),
            list@ == old(list)@,
            image_from(pod.subpods@, 0) == image_from(pod.subpods@, i as int),
        decreases pod.subpods@.len() - i,
    {
        match &pod.subpods[i].image {
            Some(source) => {
                let item = Outgoing::Image {
                    text: pod_message(pod, heading),
                    source: source.clone(),
                    filename: filename.to_owned(),
                };
                list.push(item);
                assert(outgoing_views(list@) =~= outgoing_views(old(list)@) + seq![item@]);
                return ;
            },
            None => {},
        }
        i = i + 1;
    }
    assert(outgoing_views(list@) =~= outgoing_views(old(list)@) + Seq::<OutgoingView>::empty());
}

/// Writes what is said when the service did not understand the input.
#[verifier::rlimit(40)]
pub fn not_understood(meant: &Option<Vec<String>>) -> (text: String)
    ensures
        text@ == not_understood_text(
            match *meant {
                Some(list) => Some(texts(list@)),
                None => None,
            },
        ),
{
    let mut text = "Wolphram!Alpha couldn't understand your input. :/".to_owned();
    let ghost head = text@;
    match meant {
        Some(list) => {
            let ghost names = texts(list@);
            if list.len() == 1 {
                text.append("\n\nDid you mean `");
                text.append(list[0].as_str());
                text.append("`?");
            } else if list.len() > 1 {
                text.append("\n\nDid you mean:");
                let ghost start = text@;
                let mut i: usize = 0;
                proof {
                    assert(start + meant_lines(names.subrange(0, 0)) =~= start);
                }
                while i < list.len()
                    invariant
                        i <= list@.len(),
                        names == texts(list@),
                        text@ == start + meant_lines(names.subrange(0, i as int)),
                    decreases list@.len() - i,
                {
                    proof {
                        let next = names.subrange(0, i + 1);
                        assert(next.drop_last() =~= names.subrange(0, i as int));
                        assert(next.last() == list@[i as int]@);
                    }
                    text.append("\n• `");
                    text.append(list[i].as_str());
                    text.append("`");
                    i = i + 1;
                    assert(text@ =~= start + meant_lines(names.subrange(0, i as int)));
                }
                assert(names.subrange(0, i as int) =~= names);
                assert(text@ =~= head + ("\n\nDid you mean:"@ + meant_lines(names)));
            } else {
                assert(text@ =~= head + Seq::<char>::empty());
            }
        },
        None => {
            assert(text@ =~= head + Seq::<char>::empty());
        },
    }
    text
}

/// Decides what an answer leads to.
pub fn handle_wa(result: &QueryResult) -> (res: Result<Vec<Outgoing>, String>)
    ensures
        match res {
            Ok(list) => answer_of(*result) == Ok::<Seq<OutgoingView>, Seq<char>>(
                outgoing_views(list@),
            ),
            Err(text) => answer_of(*result) == Err::<Seq<OutgoingView>, Seq<char>>(text@),
        },
{
    if result.error {
        return Err("Invalid request, call YaLTeR!".to_owned());
    }
    if !result.success {
        return Err(not_understood(&result.did_you_means));
    }
    let mut list: Vec<Outgoing> = Vec::new();
    assert(outgoing_views(list@) =~= Seq::<OutgoingView>::empty());
    match find_pod(&result.pods, true) {
        Some(at) => send_pod_contents(
            &mut list,
            &result.pods[at],
            "Input interpretation:",
            "input_interpretation.gif",
        ),
        None => {},
    }
    let ghost first = outgoing_views(list@);
    match find_pod(&result.pods, false) {
        Some(at) => send_pod_contents(&mut list, &result.pods[at], "Result:", "result.gif"),
        None => {
            let item = Outgoing::Text(
                "Wolfram!Alpha didn't return a result pod. This probably means that the standard computation time exceeded.".to_owned(),
            );
            list.push(item);
            assert(outgoing_views(list@) =~= first + seq![item@]);
        },
    }
    assert(outgoing_views(list@) =~= pods_outgoing(result.pods@));
    Ok(list)
}

/// What is sent when the image of a pod could not be fetched: the text of
/// the pod, and after an empty line what went wrong.
pub open spec fn image_failure_text(text: Seq<char>, reason: Seq<char>) -> Seq<char> {
    text + (if text.len() > 0 {
        "\n\n"@
    } else {
        Seq::empty()
    })
        + "Something's broken. :/ (Couldn't get the resulting image returned by the API: "@
        + reason + ")"@
}

/// Writes what is sent when the image of a pod could not be fetched.
pub fn image_failure(text: &str, reason: &str) -> (reply: String)
    ensures
        reply@ == image_failure_text(text@, reason@),
{
    let mut reply = text.to_owned();
    if !text.is_empty() {
        reply.append("\n\n");
    }
    reply.append(
        "Something's broken. :/ (Couldn't get the resulting image returned by the API: ",
    );
    reply.append(reason);
    reply.append(")");
    assert(reply@ =~= image_failure_text(text@, reason@));
    reply
}

/// The causes of a failure, each on a line of its own.
pub open spec fn cause_lines(causes: Seq<Seq<char>>) -> Seq<char>
    decreases causes.len(),
{
    if causes.len() == 0 {
        Seq::empty()
    } else {
        cause_lines(causes.drop_last()) + "\nCaused by: "@ + causes.last()
    }
}

/// Writes the reply to a query that failed: what went wrong, and then
/// each of its causes.
pub fn failure_reply(message: &str, causes: &Vec<String>) -> (reply: String)
    ensures
        reply@ == message@ + cause_lines(texts(causes@)),
{
    let mut reply = message.to_owned();
    let ghost list = texts(causes@);
    let mut i: usize = 0;
    proof {
        assert(message@ + cause_lines(list.subrange(0, 0)) =~= message@);
    }
    while i < causes.len()
        invariant
            i <= causes@.len(),
            list == texts(causes@),
            reply@ == message@ + cause_lines(list.subrange(0, i as int)),
        decreases causes@.len() - i,
    {
        proof {
            let next = list.subrange(0, i + 1);
            assert(next.drop_last() =~= list.subrange(0, i as int));
            assert(next.last() == causes@[i as int]@);
        }
        reply.append("\nCaused by: ");
        reply.append(causes[i].as_str());
        i = i + 1;
        assert(reply@ =~= message@ + cause_lines(list.subrange(0, i as int)));
    }
    assert(list.subrange(0, i as int) =~= list);
    reply
}

} // verus!
