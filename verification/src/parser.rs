//! Splitting a chat message into a command name and its argument text.

use vstd::prelude::*;
use vstd::std_specs::iter::IteratorSpec;
use vstd::string::StrSliceExecFns;

verus! {

/// The character every command starts with.
pub const COMMAND_PREFIX: char = '!';

/// Whether `c` has the Unicode `White_Space` property.
pub open spec fn is_whitespace(c: char) -> bool {
    let n = c as u32;
    ||| 0x09 <= n <= 0x0D
    ||| n == 0x20
    ||| n == 0x85
    ||| n == 0xA0
    ||| n == 0x1680
    ||| 0x2000 <= n <= 0x200A
    ||| n == 0x2028
    ||| n == 0x2029
    ||| n == 0x202F
    ||| n == 0x205F
    ||| n == 0x3000
}

/// The index of the first whitespace character of `text` at or after `from`,
/// or the length of `text` when there is none.
pub open spec fn name_end(text: Seq<char>, from: int) -> int
    decreases text.len() - from,
{
    if from >= text.len() {
        text.len() as int
    } else if is_whitespace(text[from]) {
        from
    } else {
        name_end(text, from + 1)
    }
}

/// The least position from `from` on of a character of `text` that is no
/// whitespace, or the length of `text`.
pub open spec fn spaces_end(text: Seq<char>, from: int) -> int
    decreases text.len() - from,
{
    if from >= text.len() {
        text.len() as int
    } else if !is_whitespace(text[from]) {
        from
    } else {
        spaces_end(text, from + 1)
    }
}

/// What a message parses to: `None` when it is no command, else the command
/// name and the argument text.
pub open spec fn parsed_command(text: Seq<char>) -> Option<(Seq<char>, Seq<char>)> {
    if text.len() < 2 || text[0] != COMMAND_PREFIX || is_whitespace(text[1]) {
        None
    } else {
        let end = name_end(text, 1);
        let args = if end < text.len() {
            text.subrange(end + 1, text.len() as int)
        } else {
            Seq::empty()
        };
        Some((text.subrange(1, end), args))
    }
}

/// Tells whether `c` is a Unicode whitespace character.
pub fn is_space(c: char) -> (b: bool)
    ensures
        b == is_whitespace(c),
{
    let n: u32 = c as u32;
    (0x09 <= n && n <= 0x0D) || n == 0x20 || n == 0x85 || n == 0xA0 || n == 0x1680 || (0x2000 <= n
        && n <= 0x200A) || n == 0x2028 || n == 0x2029 || n == 0x202F || n == 0x205F || n == 0x3000
}

/// `name_end` is the least index from `from` on that holds a whitespace
/// character, and the length of the text when no such index exists.
pub proof fn lemma_name_end(text: Seq<char>, from: int)
    requires
        0 <= from <= text.len(),
    ensures
        from <= name_end(text, from) <= text.len(),
        forall|i: int| from <= i < name_end(text, from) ==> !is_whitespace(#[trigger] text[i]),
        name_end(text, from) < text.len() ==> is_whitespace(text[name_end(text, from)]),
    decreases text.len() - from,
{
    if from < text.len() && !is_whitespace(text[from]) {
        lemma_name_end(text, from + 1);
    }
}

/// A text that does not start with the prefix, and the prefix alone, are
/// no commands.
pub proof fn lemma_not_a_command(text: Seq<char>)
    requires
        text.len() == 0 || text[0] != COMMAND_PREFIX || text.len() == 1,
    ensures
        parsed_command(text) is None,
{
}

/// The name of a command is not empty and holds no whitespace, and the
/// message is the prefix, the name, and, where anything follows the name,
/// one whitespace character and the arguments.
pub proof fn lemma_command_parts(text: Seq<char>)
    requires
        parsed_command(text) is Some,
    ensures
        ({
            let (name, args) = parsed_command(text)->0;
            &&& name.len() > 0
            &&& forall|i: int| 0 <= i < name.len() ==> !is_whitespace(#[trigger] name[i])
            &&& (text == seq![COMMAND_PREFIX] + name && args.len() == 0) || (1 + name.len()
                < text.len() && is_whitespace(text[name.len() + 1int]) && text == seq![COMMAND_PREFIX]
                + name + seq![text[name.len() + 1int]] + args)
        }),
{
    lemma_name_end(text, 1);
    lemma_name_end(text, 2);
    let (name, args) = parsed_command(text)->0;
    let end = name_end(text, 1);
    assert forall|i: int| 0 <= i < name.len() implies !is_whitespace(#[trigger] name[i]) by {
        assert(name[i] == text[i + 1]);
    }
    if end < text.len() {
        assert(text =~= seq![COMMAND_PREFIX] + name + seq![text[name.len() + 1int]] + args);
    } else {
        assert(text =~= seq![COMMAND_PREFIX] + name);
    }
}

/// A name without whitespace, put behind the prefix and followed by one
/// whitespace character and any arguments, parses to that name and those
/// arguments, character for character. Without anything behind the name,
/// the arguments are empty.
pub proof fn lemma_command_round_trip(name: Seq<char>, separator: char, args: Seq<char>)
    requires
        name.len() > 0,
        forall|i: int| 0 <= i < name.len() ==> !is_whitespace(#[trigger] name[i]),
        is_whitespace(separator),
    ensures
        parsed_command(seq![COMMAND_PREFIX] + name + seq![separator] + args) == Some((name, args)),
        parsed_command(seq![COMMAND_PREFIX] + name) == Some((name, Seq::<char>::empty())),
{
    let long = seq![COMMAND_PREFIX] + name + seq![separator] + args;
    let short = seq![COMMAND_PREFIX] + name;
    lemma_name_end(long, 1);
    lemma_name_end(short, 1);
    let end = name_end(long, 1);
    assert(long[name.len() + 1int] == separator);
    assert forall|i: int| 1 <= i < 1 + name.len() implies !is_whitespace(#[trigger] long[i]) by {
        assert(long[i] == name[i - 1]);
    }
    assert forall|i: int| 1 <= i < 1 + name.len() implies !is_whitespace(#[trigger] short[i]) by {
        assert(short[i] == name[i - 1]);
    }
    if end < 1 + name.len() {
        assert(!is_whitespace(long[end]));
    }
    assert(end == 1 + name.len());
    assert(long[1] == name[0]);
    assert(short[1] == name[0]);
    assert(long.subrange(1, end) =~= name);
    assert(long.subrange(end + 1, long.len() as int) =~= args);
    let short_end = name_end(short, 1);
    if short_end < short.len() {
        assert(!is_whitespace(short[short_end]));
    }
    assert(short.subrange(1, short_end) =~= name);
}

/// Parses a message into a command name and argument text.
///
/// A command starts with the prefix, followed by a name of one or more
/// characters that are not whitespace. One whitespace character after the
/// name separates it from the arguments, which are returned untrimmed.
pub fn parse_command<'a>(message: &'a str) -> (res: Option<(&'a str, &'a str)>)
    ensures
        match res {
            Some((name, args)) => parsed_command(message@) == Some((name@, args@)),
            None => parsed_command(message@) is None,
        },
{
    let ghost text = message@;
    let len = message.unicode_len();
    let mut it = message.chars();
    match it.next() {
        Some(c) => {
            if c != COMMAND_PREFIX {
                return None;
            }
        },
        None => {
            return None;
        },
    }
    // The name runs from index 1 up to the first whitespace character.
    let mut end: usize = 1;
    while end < len
        invariant_except_break
            it.obeys_prophetic_iter_laws(),
            it.remaining() == text.subrange(end as int, len as int),
            name_end(text, 1) == name_end(text, end as int),
        invariant
            text == message@,
            len == text.len(),
            1 <= end <= len,
        ensures
            1 <= end <= len,
            end == name_end(text, 1),
        decreases len - end,
    {
        match it.next() {
            Some(c) => {
                assert(c == text[end as int]);
                if is_space(c) {
                    break ;
                }
                end = end + 1;
            },
            None => {
                break ;
            },
        }
    }
    proof {
        lemma_name_end(text, 1);
        if len >= 2 && !is_whitespace(text[1]) {
            lemma_name_end(text, 2);
        }
    }
    if end == 1 {
        return None;
    }
    let name = message.substring_char(1, end);
    if end < len {
        Some((name, message.substring_char(end + 1, len)))
    } else {
        proof {
            reveal_strlit("");
        }
        Some((name, ""))
    }
}

} // verus!
