use yalter_bot::parser::{is_space, parse_command};

#[test]
fn parse_command_noargs() {
    assert_eq!(Some(("command", "")), parse_command("!command"));
}

#[test]
fn parse_command_noargs_onespace() {
    assert_eq!(Some(("command", "")), parse_command("!command "));
}

#[test]
fn parse_command_noargs_twospaces() {
    assert_eq!(Some(("command", " ")), parse_command("!command  "));
}

#[test]
fn parse_command_usual() {
    assert_eq!(
        Some(("my_cmd", "a bunch of arguments")),
        parse_command("!my_cmd a bunch of arguments")
    );
}

#[test]
fn parse_command_newline() {
    assert_eq!(Some(("test", "arg")), parse_command("!test\narg"));
}

#[test]
fn parse_command_newlines() {
    assert_eq!(
        Some(("blah", "\n\nargs\nare\nhere\n\n")),
        parse_command("!blah\n\n\nargs\nare\nhere\n\n")
    );
}

#[test]
fn parse_command_notcommand() {
    assert_eq!(None, parse_command("Hello"));
}

#[test]
fn parse_command_empty_command() {
    assert_eq!(None, parse_command("!"));
}

#[test]
fn parse_command_empty_command_with_arguments() {
    assert_eq!(None, parse_command("! blah"));
}

#[test]
fn parse_command_unicode() {
    assert_eq!(
        Some(("КрутаяКоманда1337💖忠犬ハチ公", "ハチ公Да")),
        parse_command("!КрутаяКоманда1337💖忠犬ハチ公 ハチ公Да")
    );
}

#[test]
fn parse_command_separator_is_consumed_once() {
    assert_eq!(Some(("cmd", "")), parse_command("!cmd"));
    assert_eq!(Some(("cmd", "")), parse_command("!cmd "));
    assert_eq!(Some(("cmd", " ")), parse_command("!cmd  "));
    assert_eq!(Some(("cmd", "arg")), parse_command("!cmd\narg"));
}

#[test]
fn parse_command_without_prefix_is_none() {
    assert_eq!(None, parse_command(""));
    assert_eq!(None, parse_command(" !cmd"));
    assert_eq!(None, parse_command("cmd !cmd"));
    assert_eq!(None, parse_command("?cmd"));
}

#[test]
fn parse_command_unicode_whitespace_separates() {
    assert_eq!(Some(("a", "b")), parse_command("!a\u{00A0}b"));
    assert_eq!(Some(("a", "b")), parse_command("!a\u{3000}b"));
    assert_eq!(Some(("a", "b")), parse_command("!a\tb"));
    assert_eq!(Some(("a", "\u{2003}b")), parse_command("!a\u{2002}\u{2003}b"));
    assert_eq!(None, parse_command("!\u{2028}b"));
}

#[test]
fn parse_command_zero_width_space_is_no_whitespace() {
    assert_eq!(Some(("a\u{200B}b", "")), parse_command("!a\u{200B}b"));
    assert_eq!(Some(("a\u{180E}b", "c")), parse_command("!a\u{180E}b c"));
}

#[test]
fn parse_command_keeps_combining_sequences() {
    assert_eq!(
        Some(("e\u{301}👍🏽", "👨\u{200D}👩\u{200D}👧 x")),
        parse_command("!e\u{301}👍🏽 👨\u{200D}👩\u{200D}👧 x")
    );
}

#[test]
fn is_space_agrees_with_the_standard_library() {
    let mut n: u32 = 0;
    while n <= 0x10FFFF {
        if let Some(c) = char::from_u32(n) {
            assert_eq!(c.is_whitespace(), is_space(c), "U+{:04X}", n);
        }
        n += 1;
    }
}
