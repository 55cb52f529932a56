//! The commands that were answered lately, channel by channel, so that a
//! reply can be found again when its command is edited or deleted.

use circular_queue::CircularQueue;
use std::collections::HashMap;
use vstd::prelude::*;

verus! {

/// How many answered commands are remembered for one channel.
pub const COMMAND_MESSAGE_QUEUE_SIZE: usize = 64;

/// An answered command.
#[derive(Clone, Copy, PartialEq, Eq, Structural, Debug)]
pub struct CommandMessage {
    /// The message with the command.
    pub command: u64,
    /// The author of that message.
    pub author: u64,
    /// The message that the bot sent as a reply.
    pub output: u64,
}

/// The queue of the circular-queue crate, which holds at most as many
/// items as it was made for and then overwrites the oldest.
#[verifier::external_type_specification]
#[verifier::external_body]
#[verifier::reject_recursive_types(T)]
pub struct ExCircularQueue<T>(CircularQueue<T>);

/// The items of a queue, from the one pushed last to the oldest.
pub uninterp spec fn queue_items(queue: CircularQueue<(u64, u64, u64)>) -> Seq<(u64, u64, u64)>;

/// The capacity that a queue was made with.
pub uninterp spec fn queue_capacity(queue: CircularQueue<(u64, u64, u64)>) -> nat;

/// Calls `CircularQueue::with_capacity`, which makes an empty queue with
/// the given capacity.
#[verifier::external_body]
fn queue_with_capacity(capacity: usize) -> (queue: CircularQueue<(u64, u64, u64)>)
    requires
        capacity <= 65536,
    ensures
        queue_items(queue) == Seq::<(u64, u64, u64)>::empty(),
        queue_capacity(queue) == capacity,
{
    CircularQueue::with_capacity(capacity)
}

/// Calls `CircularQueue::push`. A queue without capacity stays empty. A
/// queue that holds as many items as its capacity loses its oldest item to
/// make room. In every other case the queue only gains the new item, which
/// becomes the first.
#[verifier::external_body]
fn queue_push(queue: &mut CircularQueue<(u64, u64, u64)>, item: (u64, u64, u64))
    ensures
        queue_capacity(*final(queue)) == queue_capacity(*old(queue)),
        queue_items(*final(queue)) == if queue_capacity(*old(queue)) == 0 {
            queue_items(*old(queue))
        } else if queue_items(*old(queue)).len() == queue_capacity(*old(queue)) {
            seq![item] + queue_items(*old(queue)).drop_last()
        } else {
            seq![item] + queue_items(*old(queue))
        },
{
    queue.push(item);
}

/// Calls `CircularQueue::iter` and copies the items out in the order of
/// that iterator, which goes from the item pushed last to the oldest.
#[verifier::external_body]
fn queue_to_vec(queue: &CircularQueue<(u64, u64, u64)>) -> (items: Vec<(u64, u64, u64)>)
    ensures
        items@ == queue_items(*queue),
{
    queue.iter().cloned().collect()
}

/// The record that an item of a queue stands for.
pub open spec fn record_of(item: (u64, u64, u64)) -> CommandMessage {
    CommandMessage { command: item.0, author: item.1, output: item.2 }
}

/// The records after one more command was answered: the new record comes
/// first, and the oldest one leaves when there were already as many as are
/// remembered.
pub open spec fn remembered(records: Seq<CommandMessage>, record: CommandMessage) -> Seq<CommandMessage> {
    if records.len() >= COMMAND_MESSAGE_QUEUE_SIZE {
        seq![record] + records.drop_last()
    } else {
        seq![record] + records
    }
}

/// The least position from `from` on of a record of the command
/// `command_id`, or the number of records when there is none.
pub open spec fn record_from(records: Seq<CommandMessage>, command_id: u64, from: int) -> int
    decreases records.len() - from,
{
    if from >= records.len() {
        records.len() as int
    } else if records[from].command == command_id {
        from
    } else {
        record_from(records, command_id, from + 1)
    }
}

/// The answered commands of every channel.
#[derive(Debug)]
pub struct CommandHistory {
    queues: HashMap<u64, CircularQueue<(u64, u64, u64)>>,
}

impl CommandHistory {
    #[verifier::type_invariant]
    spec fn inv(&self) -> bool {
        forall|channel: u64| #[trigger]
            self.queues@.contains_key(channel) ==> {
                &&& queue_capacity(self.queues@[channel]) == COMMAND_MESSAGE_QUEUE_SIZE
                &&& queue_items(self.queues@[channel]).len() <= COMMAND_MESSAGE_QUEUE_SIZE
            }
    }

    /// The records of a channel, from the newest to the oldest.
    pub closed spec fn records(&self, channel_id: u64) -> Seq<CommandMessage> {
        if self.queues@.contains_key(channel_id) {
            queue_items(self.queues@[channel_id]).map_values(|item: (u64, u64, u64)| record_of(item))
        } else {
            Seq::empty()
        }
    }

    /// A history without records.
    pub fn new() -> (res: CommandHistory)
        ensures
            forall|channel_id: u64| res.records(channel_id) == Seq::<CommandMessage>::empty(),
    {
        CommandHistory { queues: HashMap::new() }
    }

    /// Remembers that the command `command_id` of `author` in the channel
    /// `channel_id` was answered with the message `output_id`.
    pub fn remember_command_message(
        &mut self,
        channel_id: u64,
        command_id: u64,
        author: u64,
        output_id: u64,
    )
        ensures
            final(self).records(channel_id) == remembered(
                old(self).records(channel_id),
                CommandMessage { command: command_id, author, output: output_id },
            ),
            forall|other: u64|
                other != channel_id ==> final(self).records(other) == old(self).records(other),
            final(self).records(channel_id).len() <= COMMAND_MESSAGE_QUEUE_SIZE,
    {
        proof {
            use_type_invariant(&*self);
        }
        let mut taken = CommandHistory::new();
        std::mem::swap(self, &mut taken);
        let mut queues = taken.queues;
        let mut queue = match queues.remove(&channel_id) {
            Some(queue) => queue,
            None => queue_with_capacity(COMMAND_MESSAGE_QUEUE_SIZE),
        };
        let ghost before = queue_items(queue);
        queue_push(&mut queue, (command_id, author, output_id));
        queues.insert(channel_id, queue);
        *self = CommandHistory { queues };
        proof {
            let f = |item: (u64, u64, u64)| record_of(item);
            let item = (command_id, author, output_id);
            assert((seq![item] + before).map_values(f) =~= seq![record_of(item)] + before.map_values(f));
            if before.len() > 0 {
                assert((seq![item] + before.drop_last()).map_values(f) =~= seq![record_of(item)]
                    + before.map_values(f).drop_last());
            }
        }
    }

    /// Finds the newest record of the command `command_id` in the channel
    /// `channel_id`.
    pub fn find_command_message(&self, channel_id: u64, command_id: u64) -> (res: Option<CommandMessage>)
        ensures
            ({
                let records = self.records(channel_id);
                let at = record_from(records, command_id, 0);
                res == if at < records.len() {
                    Some(records[at])
                } else {
                    None
                }
            }),
    {
        match self.queues.get(&channel_id) {
            Some(queue) => {
                let items = queue_to_vec(queue);
                let ghost records = self.records(channel_id);
                let mut i: usize = 0;
                while i < items.len()
                    invariant
                        i <= items@.len(),
                        records == self.records(channel_id),
                        records == items@.map_values(|item: (u64, u64, u64)| record_of(item)),
                        record_from(records, command_id, 0) == record_from(records, command_id, i as int),
                    decreases items@.len() - i,
                {
                    assert(records[i as int] == record_of(items@[i as int]));
                    if items[i].0 == command_id {
                        return Some(
                            CommandMessage {
                                command: items[i].0,
                                author: items[i].1,
                                output: items[i].2,
                            },
                        );
                    }
                    i = i + 1;
                }
                None
            },
            None => None,
        }
    }
}

} // verus!
