//! Decisions around the calls that send something: how a batch is split,
//! where a message goes, and what follows a failure.

use vstd::prelude::*;
use vstd::string::StringExecFns;

verus! {

/// The most messages that one call can delete.
pub const DELETE_BATCH_SIZE: usize = 100;

/// The status code of a request that the service found malformed.
pub const BAD_REQUEST: u16 = 400;

/// The number of batches that `len` messages are deleted in.
pub open spec fn batch_count(len: nat) -> int {
    (len + DELETE_BATCH_SIZE - 1) / (DELETE_BATCH_SIZE as int)
}

/// The messages of the batch at position `k`.
pub open spec fn batch(messages: Seq<u64>, k: int) -> Seq<u64> {
    let start = k * DELETE_BATCH_SIZE;
    let end = if start + DELETE_BATCH_SIZE < messages.len() {
        start + DELETE_BATCH_SIZE
    } else {
        messages.len() as int
    };
    messages.subrange(start, end)
}

/// Splits the messages to delete into batches of at most a hundred, in
/// their order.
pub fn delete_batches(messages: &Vec<u64>) -> (batches: Vec<Vec<u64>>)
    ensures
        batches@.len() == batch_count(messages@.len()),
        forall|k: int| 0 <= k < batches@.len() ==> (#[trigger] batches@[k])@ == batch(messages@, k),
        forall|k: int|
            0 <= k < batches@.len() ==> 1 <= (#[trigger] batches@[k])@.len() <= DELETE_BATCH_SIZE,
{
    let mut batches: Vec<Vec<u64>> = Vec::new();
    let mut current: Vec<u64> = Vec::new();
    let mut i: usize = 0;
    while i < messages.len()
        invariant
            i <= messages@.len(),
            current@.len() < DELETE_BATCH_SIZE,
            i == batches@.len() * DELETE_BATCH_SIZE + current@.len(),
            current@ == messages@.subrange(batches@.len() * DELETE_BATCH_SIZE, i as int),
            forall|k: int| 0 <= k < batches@.len() ==> (#[trigger] batches@[k])@ == batch(messages@, k),
            forall|k: int|
                0 <= k < batches@.len() ==> (#[trigger] batches@[k])@.len() == DELETE_BATCH_SIZE,
        decreases messages@.len() - i,
    {
        let ghost start = batches@.len() * DELETE_BATCH_SIZE;
        current.push(messages[i]);
        i = i + 1;
        assert(current@ =~= messages@.subrange(start as int, i as int));
        if current.len() == DELETE_BATCH_SIZE {
            let mut full: Vec<u64> = Vec::new();
            std::mem::swap(&mut full, &mut current);
            batches.push(full);
            assert(current@ =~= messages@.subrange(i as int, i as int));
        }
    }
    if current.len() > 0 {
        batches.push(current);
    }
    batches
}

/// The first `upto` batches, one after the other.
pub open spec fn joined_batches(messages: Seq<u64>, upto: int) -> Seq<u64>
    decreases upto,
{
    if upto <= 0 {
        Seq::empty()
    } else {
        joined_batches(messages, upto - 1) + batch(messages, upto - 1)
    }
}

/// The batches hold every message once, in the order of the messages: the
/// first `upto` of them hold the messages before the next batch.
pub proof fn lemma_batches_cover(messages: Seq<u64>, upto: int)
    requires
        0 <= upto <= batch_count(messages.len()),
    ensures
        joined_batches(messages, upto) == messages.subrange(
            0,
            if upto * DELETE_BATCH_SIZE < messages.len() {
                upto * DELETE_BATCH_SIZE
            } else {
                messages.len() as int
            },
        ),
        upto == batch_count(messages.len()) ==> joined_batches(messages, upto) == messages,
    decreases upto,
{
    if upto > 0 {
        lemma_batches_cover(messages, upto - 1);
        assert(joined_batches(messages, upto) =~= messages.subrange(
            0,
            if upto * DELETE_BATCH_SIZE < messages.len() {
                upto * DELETE_BATCH_SIZE
            } else {
                messages.len() as int
            },
        ));
    } else {
        assert(joined_batches(messages, 0) =~= messages.subrange(0, 0));
    }
    if upto == batch_count(messages.len()) {
        assert(messages.subrange(0, messages.len() as int) =~= messages);
    }
}

/// Where a reply goes.
#[derive(Clone, Copy, PartialEq, Eq, Structural, Debug)]
pub enum Delivery {
    /// The earlier reply `message_id` in `channel_id` is edited.
    Edit { channel_id: u64, message_id: u64 },
    /// A new message is sent to `channel_id`.
    Send { channel_id: u64 },
}

/// Decides between editing an earlier reply and sending a new message:
/// where there is an earlier reply, given by its channel and identifier, it
/// is edited; else a new message goes to `channel`.
pub fn edit_or_send_new(channel: u64, earlier: Option<(u64, u64)>) -> (res: Delivery)
    ensures
        res == match earlier {
            Some((channel_id, message_id)) => Delivery::Edit { channel_id, message_id },
            None => Delivery::Send { channel_id: channel },
        },
{
    match earlier {
        Some((channel_id, message_id)) => Delivery::Edit { channel_id, message_id },
        None => Delivery::Send { channel_id: channel },
    }
}

/// What is sent for a private message, and to which channel.
#[derive(Debug, PartialEq, Eq)]
pub struct PrivateDelivery {
    pub channel_id: u64,
    pub text: String,
}

/// The text that reports that no private channel could be opened.
pub open spec fn private_channel_error_text(error: Seq<char>) -> Seq<char> {
    "Error creating a private channel: `"@ + error + "`."@
}

/// Decides what is sent once the attempt to open a private channel has
/// ended: with the channel, the text goes there; with an error, a report of
/// it goes to the channel that errors are reported in.
pub fn send_pm(
    private_channel: Result<u64, String>,
    text: &str,
    error_reporting_channel: u64,
) -> (res: PrivateDelivery)
    ensures
        match private_channel {
            Ok(channel_id) => res.channel_id == channel_id && res.text@ == text@,
            Err(error) => res.channel_id == error_reporting_channel && res.text@
                == private_channel_error_text(error@),
        },
{
    match private_channel {
        Ok(channel_id) => PrivateDelivery { channel_id, text: text.to_owned() },
        Err(error) => {
            let mut report = String::new();
            report.append("Error creating a private channel: `");
            report.append(error.as_str());
            report.append("`.");
            PrivateDelivery { channel_id: error_reporting_channel, text: report }
        },
    }
}

/// The rejection of a message by the service, as far as the bot looks at
/// it: the status code, and the first complaint about the content of the
/// message, where the answer holds one.
#[derive(Debug, PartialEq, Eq)]
pub struct Rejection {
    pub status: u16,
    pub content_complaint: Option<String>,
}

/// What the service says of a message that is too long.
pub open spec fn too_long_complaint() -> Seq<char> {
    "String value is too long."@
}

/// What the bot says when its message was too long.
pub open spec fn apology() -> Seq<char> {
    "I tried sending a message but Discord told me it was too long. :("@
}

/// Whether a rejection says that the message was too long.
pub open spec fn is_too_long(rejection: Rejection) -> bool {
    &&& rejection.status == BAD_REQUEST
    &&& rejection.content_complaint is Some
    &&& rejection.content_complaint->0@ == too_long_complaint()
}

/// Decides what follows a failed call: the apology to send when the
/// message was rejected as too long, and nothing for any other failure,
/// which is only logged. `rejection` is `None` when the failure was no
/// rejection by the service.
pub fn handle_error(rejection: Option<&Rejection>) -> (res: Option<String>)
    ensures
        rejection is Some && is_too_long(*rejection->0) ==> res is Some && res->0@ == apology(),
        !(rejection is Some && is_too_long(*rejection->0)) ==> res is None,
{
    match rejection {
        Some(r) => {
            if r.status != BAD_REQUEST {
                return None;
            }
            match &r.content_complaint {
                Some(complaint) => {
                    let wanted = "String value is too long.".to_owned();
                    if *complaint == wanted {
                        Some(
                            "I tried sending a message but Discord told me it was too long. :(".to_owned(),
                        )
                    } else {
                        None
                    }
                },
                None => None,
            }
        },
        None => None,
    }
}

} // verus!
