//! Diagnostic messages and pattern helpers.
use std::io::Write;
use vstd::prelude::*;
use vstd::string::{StrSliceExecFns, StringExecFns};

verus! {

/// The messages as counts and character sequences.
pub open spec fn messages_view(msgs: Seq<(usize, String)>) -> Seq<(usize, Seq<char>)> {
    Seq::new(msgs.len(), |i: int| (msgs[i].0, msgs[i].1@))
}

/// The messages after logging `m`: a repeat of the last message increments
/// its count (saturating at `usize::MAX`), any other message is appended
/// with a count of one.
pub open spec fn log_spec(v: Seq<(usize, Seq<char>)>, m: Seq<char>) -> Seq<(usize, Seq<char>)> {
    if v.len() > 0 && v.last().1 == m {
        let c = v.last().0;
        v.update(v.len() - 1, (if c < usize::MAX { (c + 1) as usize } else { c }, m))
    } else {
        v.push((1usize, m))
    }
}

/// Logs a message, counting consecutive repeats of the same message.
pub fn push_message(msgs: &mut Vec<(usize, String)>, msg: String)
    ensures
        messages_view(final(msgs)@) == log_spec(messages_view(old(msgs)@), msg@),
{
    let ghost v = messages_view(msgs@);
    match msgs.pop() {
        Some((count, last)) => {
            if last == msg {
                let c = if count < usize::MAX {
                    count + 1
                } else {
                    count
                };
                msgs.push((c, last));
                assert(messages_view(msgs@) =~= log_spec(v, msg@));
            } else {
                msgs.push((count, last));
                msgs.push((1, msg));
                assert(messages_view(msgs@) =~= log_spec(v, msg@));
            }
        },
        None => {
            msgs.push((1, msg));
            assert(messages_view(msgs@) =~= log_spec(v, msg@));
        },
    }
}

/// Whether two strings hold the same characters.
pub fn str_eq(a: &str, b: &str) -> (r: bool)
    ensures
        r == (a@ == b@),
{
    let n = a.unicode_len();
    if n != b.unicode_len() {
        return false;
    }
    let mut i: usize = 0;
    while i < n
        invariant
            i <= n,
            n == a@.len(),
            n == b@.len(),
            forall|j: int| 0 <= j < i ==> a@[j] == b@[j],
        decreases n - i,
    {
        if a.get_char(i) != b.get_char(i) {
            return false;
        }
        i = i + 1;
    }
    assert(a@ =~= b@);
    true
}

/// A pattern with its braces removed: `{` and `}` are dropped, except that
/// a backslash followed by a brace stands for that brace.
pub open spec fn without_braces(s: Seq<char>) -> Seq<char>
    decreases s.len(),
{
    if s.len() == 0 {
        Seq::empty()
    } else if s[0] == '\\' && s.len() > 1 && (s[1] == '{' || s[1] == '}') {
        seq![s[1]] + without_braces(s.skip(2))
    } else if s[0] == '{' || s[0] == '}' {
        without_braces(s.skip(1))
    } else {
        seq![s[0]] + without_braces(s.skip(1))
    }
}

/// Removes braces from the pattern; an escaped brace is kept, without its
/// backslash.
pub fn remove_braces(pattern: &str) -> (r: String)
    ensures
        r@ == without_braces(pattern@),
{
    let n = pattern.unicode_len();
    let mut out = String::new();
    let mut i: usize = 0;
    assert(pattern@.skip(0) =~= pattern@);
    assert(out@ + without_braces(pattern@) =~= without_braces(pattern@));
    while i < n
        invariant
            i <= n,
            n == pattern@.len(),
            without_braces(pattern@) == out@ + without_braces(pattern@.skip(i as int)),
        decreases n - i,
    {
        let c = pattern.get_char(i);
        let ghost rest = pattern@.skip(i as int);
        assert(rest[0] == c);
        if c == '\\' && i + 1 < n && (pattern.get_char(i + 1) == '{' || pattern.get_char(i + 1) == '}') {
            assert(rest[1] == pattern@[i + 1]);
            assert(rest.skip(2) =~= pattern@.skip(i + 2));
            out.append(pattern.substring_char(i + 1, i + 2));
            assert(pattern@.subrange(i + 1, i + 2) =~= seq![pattern@[i + 1]]);
            i = i + 2;
        } else if c == '{' || c == '}' {
            assert(rest.skip(1) =~= pattern@.skip(i + 1));
            i = i + 1;
        } else {
            assert(rest.skip(1) =~= pattern@.skip(i + 1));
            out.append(pattern.substring_char(i, i + 1));
            assert(pattern@.subrange(i as int, i + 1) =~= seq![c]);
            i = i + 1;
        }
    }
    assert(pattern@.skip(i as int) =~= Seq::<char>::empty());
    out
}

/// The decimal digit `d`, for `d < 10`.
pub open spec fn digit_char(d: nat) -> char {
    if d == 0 {
        '0'
    } else if d == 1 {
        '1'
    } else if d == 2 {
        '2'
    } else if d == 3 {
        '3'
    } else if d == 4 {
        '4'
    } else if d == 5 {
        '5'
    } else if d == 6 {
        '6'
    } else if d == 7 {
        '7'
    } else if d == 8 {
        '8'
    } else {
        '9'
    }
}

/// The decimal representation of `n`, without leading zeros.
pub open spec fn decimal(n: nat) -> Seq<char>
    decreases n,
{
    if n < 10 {
        seq![digit_char(n)]
    } else {
        decimal(n / 10).push(digit_char(n % 10))
    }
}

/// The decimal digit `d` as a string.
fn digit_str(d: usize) -> (r: &'static str)
    requires
        d < 10,
    ensures
        r@ == seq![digit_char(d as nat)],
{
    proof {
        reveal_strlit("0");
        reveal_strlit("1");
        reveal_strlit("2");
        reveal_strlit("3");
        reveal_strlit("4");
        reveal_strlit("5");
        reveal_strlit("6");
        reveal_strlit("7");
        reveal_strlit("8");
        reveal_strlit("9");
    }
    match d {
        0 => "0",
        1 => "1",
        2 => "2",
        3 => "3",
        4 => "4",
        5 => "5",
        6 => "6",
        7 => "7",
        8 => "8",
        _ => "9",
    }
}

/// The decimal representation of `n`.
pub fn usize_to_decimal(n: usize) -> (r: String)
    ensures
        r@ == decimal(n as nat),
    decreases n,
{
    if n < 10 {
        digit_str(n).to_owned()
    } else {
        let mut s = usize_to_decimal(n / 10);
        s.append(digit_str(n % 10));
        assert(s@ =~= decimal(n as nat));
        s
    }
}

/// The printed form of a message logged `count` times.
pub open spec fn message_line(count: usize, msg: Seq<char>) -> Seq<char> {
    if count > 1 {
        seq!['('] + decimal(count as nat) + seq![')', ' '] + msg
    } else {
        msg
    }
}

/// The printed form of a logged message: the message itself, prefixed with
/// its count in parentheses when it was logged more than once.
pub fn format_message(count: usize, msg: &str) -> (r: String)
    ensures
        r@ == message_line(count, msg@),
{
    if count > 1 {
        let mut line = String::new();
        line.append("(");
        line.append(usize_to_decimal(count).as_str());
        line.append(") ");
        line.append(msg);
        proof {
            reveal_strlit("(");
            reveal_strlit(") ");
        }
        assert(line@ =~= message_line(count, msg@));
        line
    } else {
        msg.to_owned()
    }
}

/// The printed forms of the logged messages, in order.
pub fn message_lines(messages: &Vec<(usize, String)>) -> (r: Vec<String>)
    ensures
        r@.len() == messages@.len(),
        forall|i: int|
            0 <= i < r@.len() ==> #[trigger] r@[i]@ == message_line(messages@[i].0, messages@[i].1@),
{
    let mut r: Vec<String> = Vec::new();
    let mut i: usize = 0;
    while i < messages.len()
        invariant
            i <= messages@.len(),
            r@.len() == i,
            forall|j: int|
                0 <= j < i ==> #[trigger] r@[j]@ == message_line(messages@[j].0, messages@[j].1@),
        decreases messages@.len() - i,
    {
        r.push(format_message(messages[i].0, messages[i].1.as_str()));
        i = i + 1;
    }
    r
}

/// Severity of printed messages.
#[derive(Clone, Copy, Debug, PartialEq, Eq, Structural)]
pub enum MessageType {
    Warn,
    Info,
}

/// The number of a severity in the `log` crate's order of level filters
/// (off, error, warn, info, debug, trace).
pub open spec fn level_number(t: MessageType) -> nat {
    match t {
        MessageType::Warn => 2,
        MessageType::Info => 3,
    }
}

/// The printed form of a line of the given severity.
pub open spec fn severity_line(t: MessageType, line: Seq<char>) -> Seq<char> {
    match t {
        MessageType::Warn => "WARNING: "@ + line,
        MessageType::Info => line,
    }
}

/// The lines printed for the logged messages at the given severity when the
/// most verbose enabled level is `max_level`: none when that severity is not
/// enabled; otherwise one line per message, warnings marked as such.
pub fn printed_lines(messages: &Vec<(usize, String)>, msg_type: MessageType, max_level: usize) -> (r:
    Vec<String>)
    ensures
        max_level < level_number(msg_type) ==> r@.len() == 0,
        max_level >= level_number(msg_type) ==> r@.len() == messages@.len() && forall|i: int|
            0 <= i < r@.len() ==> #[trigger] r@[i]@ == severity_line(
                msg_type,
                message_line(messages@[i].0, messages@[i].1@),
            ),
{
    let mut r: Vec<String> = Vec::new();
    let enabled = match msg_type {
        MessageType::Warn => max_level >= 2,
        MessageType::Info => max_level >= 3,
    };
    if !enabled {
        return r;
    }
    let lines = message_lines(messages);
    let mut i: usize = 0;
    while i < lines.len()
        invariant
            i <= lines@.len(),
            lines@.len() == messages@.len(),
            r@.len() == i,
            forall|j: int|
                0 <= j < lines@.len() ==> #[trigger] lines@[j]@ == message_line(
                    messages@[j].0,
                    messages@[j].1@,
                ),
            forall|j: int|
                0 <= j < i ==> #[trigger] r@[j]@ == severity_line(
                    msg_type,
                    message_line(messages@[j].0, messages@[j].1@),
                ),
        decreases lines@.len() - i,
    {
        let mut line = String::new();
        match msg_type {
            MessageType::Warn => {
                line.append("WARNING: ");
            },
            MessageType::Info => {},
        }
        line.append(lines[i].as_str());
        assert(line@ =~= severity_line(msg_type, lines@[i as int]@));
        r.push(line);
        i = i + 1;
    }
    r
}

/// Relies on `log::max_level`: the most verbose level that the installed
/// logger is set to pass, as the number of its `LevelFilter` (off is zero,
/// trace is five).
#[verifier::external_body]
fn max_log_level() -> (r: usize)
    ensures
        r <= 5,
{
    log::max_level() as usize
}

/// Relies on `writeln!` to standard error (`std::io::Write::write_fmt`) to
/// print one line; a failure to print is ignored.
#[verifier::external_body]
fn write_stderr_line(line: &str) {
    let _ = writeln!(std::io::stderr(), "{}", line);
}

/// Prints the logged messages to standard error when their severity is
/// enabled by the logger's maximum level; the lines are those of
/// [`printed_lines`].
pub fn print_messages(messages: Vec<(usize, String)>, msg_type: MessageType) {
    let lines = printed_lines(&messages, msg_type, max_log_level());
    let mut i: usize = 0;
    while i < lines.len()
        decreases lines@.len() - i,
    {
        write_stderr_line(lines[i].as_str());
        i = i + 1;
    }
}

/// Prints the logged warnings.
pub fn print_warnings(messages: Vec<(usize, String)>) {
    print_messages(messages, MessageType::Warn);
}

/// Prints the logged informational messages.
pub fn print_info(messages: Vec<(usize, String)>) {
    print_messages(messages, MessageType::Info);
}

} // verus!
