//! Chat commands: how a command line is read before it is carried out.

use vstd::prelude::*;
use vstd::string::StringExecFns;

use crate::error::Error;
use crate::text::{
    chars_equal, chars_of, decimal, find, find_from, join, join_strings, lemma_find_from,
    matches_at, occurs, push_decimal, push_range, replace_all, replaced, split_at,
    split_on, split_words, string_of, texts, trim_range, trimmed, words,
};

pub mod alias;
pub mod bind;
pub mod farewell;
pub mod greeting;
pub mod ping;
pub mod sound;

verus! {

/// How deep aliases may expand into aliases.
pub const MAX_ALIAS_DEPTH: u32 = 10;

/// Who triggered a command, and where.
#[derive(Debug, Clone, Copy, PartialEq, Eq, Structural)]
pub struct CommandContext {
    /// The user who triggered the command.
    pub triggering_user_id: Option<u32>,
    /// The channel where the command was triggered.
    pub source_channel_id: Option<u32>,
    /// Whether it came in a private message.
    pub is_private_message: bool,
}

/// A command as it is stored: with a leading `!`.
pub open spec fn normalized(command: Seq<char>) -> Seq<char> {
    if command.len() > 0 && command[0] == '!' {
        command
    } else {
        seq!['!'] + command
    }
}

/// A stored command as it is shown: without its leading `!`.
pub open spec fn displayed(stored: Seq<char>) -> Seq<char> {
    if stored.len() > 0 && stored[0] == '!' {
        stored.skip(1)
    } else {
        stored
    }
}

/// Puts a `!` in front of a command that has none.
pub fn normalize_command(command: &str) -> (stored: String)
    ensures
        stored@ == normalized(command@),
{
    let chars = chars_of(command);
    if chars.len() > 0 && chars[0] == '!' {
        String::from_str(command)
    } else {
        let mut stored = String::new();
        stored.push('!');
        stored.append(command);
        proof {
            assert(stored@ =~= seq!['!'] + command@);
        }
        stored
    }
}

/// Takes the leading `!` from a stored command.
pub fn display_command(stored: &str) -> (shown: String)
    ensures
        shown@ == displayed(stored@),
{
    let chars = chars_of(stored);
    if chars.len() > 0 && chars[0] == '!' {
        let mut rest: Vec<char> = Vec::new();
        let n = chars.len();
        push_range(&mut rest, &chars, 1, n);
        proof {
            assert(rest@ =~= stored@.skip(1));
        }
        string_of(&rest)
    } else {
        String::from_str(stored)
    }
}

/// `text` without the first link that opens at `start`: the link is replaced
/// by the text it encloses; an opening tag that is never closed is taken
/// out; an opening that is no tag loses its first three characters.
pub open spec fn without_first_link(text: Seq<char>, start: int) -> Seq<char> {
    match find_from(text, ">"@, start) {
        Some(gt) => match find_from(text, "</a>"@, gt + 1) {
            Some(end) => text.take(start) + text.subrange(gt + 1, end) + text.skip(end + 4),
            None => text.take(start) + text.skip(gt + 1),
        },
        None => text.take(start) + text.skip(start + 3),
    }
}

/// `text` with its links replaced, one after another from the front, until
/// none opens any more.
pub open spec fn without_links(text: Seq<char>) -> Seq<char>
    decreases text.len(),
{
    match find_from(text, "<a "@, 0) {
        None => text,
        Some(start) => {
            let next = without_first_link(text, start);
            if next.len() < text.len() {
                without_links(next)
            } else {
                text
            }
        },
    }
}

/// `text` without the first tag that opens at `start`; a `<` that opens no
/// tag is taken out alone.
pub open spec fn without_first_tag(text: Seq<char>, start: int) -> Seq<char> {
    match find_from(text, ">"@, start) {
        Some(gt) => text.take(start) + text.skip(gt + 1),
        None => text.take(start) + text.skip(start + 1),
    }
}

/// `text` with its tags taken out, one after another from the front.
pub open spec fn without_tags(text: Seq<char>) -> Seq<char>
    decreases text.len(),
{
    match find_from(text, "<"@, 0) {
        None => text,
        Some(start) => {
            let next = without_first_tag(text, start);
            if next.len() < text.len() {
                without_tags(next)
            } else {
                text
            }
        },
    }
}

/// A command line without markup: links give way to their text, then every
/// other tag is taken out.
pub open spec fn sanitized(cmdline: Seq<char>) -> Seq<char> {
    without_tags(without_links(cmdline))
}

fn splice(text: &Vec<char>, start: usize, keep_from: usize, keep_to: usize, resume: usize) -> (out:
    Vec<char>)
    requires
        start <= text@.len(),
        keep_from <= keep_to <= text@.len(),
        resume <= text@.len(),
    ensures
        out@ == text@.take(start as int) + text@.subrange(keep_from as int, keep_to as int)
            + text@.skip(resume as int),
{
    let mut out: Vec<char> = Vec::new();
    let n = text.len();
    push_range(&mut out, text, 0, start);
    push_range(&mut out, text, keep_from, keep_to);
    push_range(&mut out, text, resume, n);
    proof {
        assert(text@.subrange(0, start as int) =~= text@.take(start as int));
        assert(text@.subrange(resume as int, n as int) =~= text@.skip(resume as int));
        assert(out@ =~= text@.take(start as int) + text@.subrange(
            keep_from as int,
            keep_to as int,
        ) + text@.skip(resume as int));
    }
    out
}

fn strip_links(text: Vec<char>) -> (out: Vec<char>)
    ensures
        out@ == without_links(text@),
{
    let open = chars_of("<a ");
    let gt = chars_of(">");
    let close = chars_of("</a>");
    let mut current = text;
    proof {
        reveal_strlit("<a ");
        reveal_strlit(">");
        reveal_strlit("</a>");
    }
    loop
        invariant_except_break
            without_links(text@) == without_links(current@),
        invariant
            open@ == "<a "@,
            gt@ == ">"@,
            close@ == "</a>"@,
            open@.len() == 3,
            gt@.len() == 1,
            close@.len() == 4,
        ensures
            current@ == without_links(text@),
        decreases current@.len(),
    {
        let n = current.len();
        proof {
            lemma_find_from(current@, "<a "@, 0);
        }
        let start = match find(&current, &open, 0) {
            Some(start) => start,
            None => {
                break;
            },
        };
        proof {
            lemma_find_from(current@, ">"@, start as int);
        }
        let next = match find(&current, &gt, start) {
            Some(at) => {
                proof {
                    lemma_find_from(current@, "</a>"@, at + 1);
                }
                match find(&current, &close, at + 1) {
                    Some(end) => {
                        let next = splice(&current, start, at + 1, end, end + 4);
                        proof {
                            assert(next@ =~= current@.take(start as int) + current@.subrange(
                                at + 1,
                                end as int,
                            ) + current@.skip(end + 4));
                        }
                        next
                    },
                    None => {
                        let next = splice(&current, start, start, start, at + 1);
                        proof {
                            assert(current@.subrange(start as int, start as int) =~= Seq::<
                                char,
                            >::empty());
                            assert(next@ =~= current@.take(start as int) + current@.skip(at + 1));
                        }
                        next
                    },
                }
            },
            None => {
                let next = splice(&current, start, start, start, start + 3);
                proof {
                    assert(current@.subrange(start as int, start as int) =~= Seq::<char>::empty());
                    assert(next@ =~= current@.take(start as int) + current@.skip(start + 3));
                }
                next
            },
        };
        proof {
            assert(next@ == without_first_link(current@, start as int));
            assert(next@.len() < current@.len());
        }
        current = next;
    }
    current
}

fn strip_tags(text: Vec<char>) -> (out: Vec<char>)
    ensures
        out@ == without_tags(text@),
        !out@.contains('<'),
{
    let lt = chars_of("<");
    let gt = chars_of(">");
    let mut current = text;
    proof {
        reveal_strlit("<");
        reveal_strlit(">");
    }
    loop
        invariant_except_break
            without_tags(text@) == without_tags(current@),
        invariant
            lt@ == "<"@,
            gt@ == ">"@,
            lt@.len() == 1,
            gt@.len() == 1,
            lt@[0] == '<',
        ensures
            current@ == without_tags(text@),
            !current@.contains('<'),
        decreases current@.len(),
    {
        let n = current.len();
        proof {
            lemma_find_from(current@, "<"@, 0);
        }
        let start = match find(&current, &lt, 0) {
            Some(start) => start,
            None => {
                proof {
                    assert forall|k: int| 0 <= k < current@.len() implies current@[k] != '<' by {
                        assert(!matches_at(current@, "<"@, k));
                        if current@[k] == '<' {
                            assert(current@.subrange(k, k + 1) =~= "<"@);
                        }
                    }
                }
                break;
            },
        };
        proof {
            lemma_find_from(current@, ">"@, start as int);
        }
        let next = match find(&current, &gt, start) {
            Some(at) => {
                proof {
                    assert(matches_at(current@, ">"@, at as int));
                }
                let next = splice(&current, start, start, start, at + 1);
                proof {
                    assert(current@.subrange(start as int, start as int) =~= Seq::<char>::empty());
                    assert(next@ =~= current@.take(start as int) + current@.skip(at + 1));
                }
                next
            },
            None => {
                let next = splice(&current, start, start, start, start + 1);
                proof {
                    assert(current@.subrange(start as int, start as int) =~= Seq::<char>::empty());
                    assert(next@ =~= current@.take(start as int) + current@.skip(start + 1));
                }
                next
            },
        };
        proof {
            assert(next@ == without_first_tag(current@, start as int));
            assert(next@.len() < current@.len());
        }
        current = next;
    }
    current
}

/// Carries out command lines.
#[derive(Debug, Default, Clone, Copy)]
pub struct Executor;

impl Executor {
    /// The context of a command that came as a text message.
    pub fn create_text_command_context(
        triggering_user_id: Option<u32>,
        source_channel_id: Option<u32>,
        is_private_message: bool,
    ) -> (context: CommandContext)
        ensures
            context == (CommandContext {
                triggering_user_id,
                source_channel_id,
                is_private_message,
            }),
    {
        CommandContext { triggering_user_id, source_channel_id, is_private_message }
    }

    /// Takes the markup out of a command line: a link gives way to the text
    /// it encloses, every other tag is dropped. No `<` is left.
    pub fn sanitize_command_line(cmdline: &str) -> (clean: String)
        ensures
            clean@ == sanitized(cmdline@),
            !clean@.contains('<'),
    {
        let chars = chars_of(cmdline);
        let linkless = strip_links(chars);
        let clean = strip_tags(linkless);
        string_of(&clean)
    }
}

/// A command line taken apart.
#[derive(Debug)]
pub struct CommandLine {
    /// The name of the command, without the `!`.
    pub name: String,
    pub args: Vec<String>,
}

/// A command that the bot knows by itself.
#[derive(Debug, Clone, Copy, PartialEq, Eq, Structural)]
pub enum BuiltinCommand {
    Alias,
    Bind,
    Farewell,
    Greeting,
    Ping,
    Sound,
}

/// The command that the bot knows under `name`.
pub open spec fn builtin_named(name: Seq<char>) -> Option<BuiltinCommand> {
    if name == "alias"@ {
        Some(BuiltinCommand::Alias)
    } else if name == "bind"@ {
        Some(BuiltinCommand::Bind)
    } else if name == "farewell"@ {
        Some(BuiltinCommand::Farewell)
    } else if name == "greeting"@ {
        Some(BuiltinCommand::Greeting)
    } else if name == "ping"@ {
        Some(BuiltinCommand::Ping)
    } else if name == "sound"@ {
        Some(BuiltinCommand::Sound)
    } else {
        None
    }
}

/// The placeholder of the argument `number`, counted from one.
pub open spec fn placeholder(number: nat) -> Seq<char> {
    seq!['$'] + decimal(number)
}

/// `text` with the placeholders of the first `count` arguments replaced,
/// one argument after the other.
pub open spec fn numbered(text: Seq<char>, args: Seq<Seq<char>>, count: nat) -> Seq<char>
    decreases count,
{
    if count == 0 {
        text
    } else {
        replaced(numbered(text, args, (count - 1) as nat), placeholder(count), args[count - 1])
    }
}

/// Whether the placeholder of one of the first `count` arguments occurred
/// when its turn came.
pub open spec fn numbered_hit(text: Seq<char>, args: Seq<Seq<char>>, count: nat) -> bool
    decreases count,
{
    if count == 0 {
        false
    } else {
        numbered_hit(text, args, (count - 1) as nat) || occurs(
            numbered(text, args, (count - 1) as nat),
            placeholder(count),
        )
    }
}

/// `text` after `$@` gave way to all arguments and `$#` to their number.
pub open spec fn collectively(text: Seq<char>, args: Seq<Seq<char>>) -> Seq<char> {
    replaced(replaced(text, "$@"@, join(args, " "@)), "$#"@, decimal(args.len()))
}

/// `text` with every placeholder replaced: `$@` by all arguments, `$#` by
/// their number, `$1`, `$2` and so on by the arguments one by one.
pub open spec fn substituted(text: Seq<char>, args: Seq<Seq<char>>) -> Seq<char> {
    numbered(collectively(text, args), args, args.len())
}

/// Whether any placeholder occurred in the course of the substitution.
pub open spec fn substitutes(text: Seq<char>, args: Seq<Seq<char>>) -> bool {
    ||| occurs(text, "$@"@)
    ||| occurs(replaced(text, "$@"@, join(args, " "@)), "$#"@)
    ||| numbered_hit(collectively(text, args), args, args.len())
}

/// The position of the last `c` in `text`.
pub open spec fn last_index(text: Seq<char>, c: char) -> Option<int>
    decreases text.len(),
{
    if text.len() == 0 {
        None
    } else if text.last() == c {
        Some(text.len() - 1)
    } else {
        last_index(text.drop_last(), c)
    }
}

/// `text` with the arguments handed to its last command: put right behind
/// the last semicolon, or, where there is none, behind a space at the end.
pub open spec fn appended(text: Seq<char>, args: Seq<Seq<char>>) -> Seq<char> {
    match last_index(text, ';') {
        Some(at) => text.take(at + 1) + join(args, " "@) + text.skip(at + 1),
        None => text + " "@ + join(args, " "@),
    }
}

/// The commands of an alias with the arguments filled in: into the
/// placeholders, where there are any, else behind the last command.
pub open spec fn expanded(text: Seq<char>, args: Seq<Seq<char>>) -> Seq<char> {
    if substitutes(text, args) {
        substituted(text, args)
    } else {
        appended(text, args)
    }
}

/// The command line in a piece of an expansion: the piece without the
/// white space around it and with a `!` in front; none where nothing is
/// left.
pub open spec fn command_line(piece: Seq<char>) -> Option<Seq<char>> {
    let line = trimmed(piece);
    if line.len() == 0 {
        None
    } else {
        Some(normalized(line))
    }
}

/// The command lines in the pieces of an expansion, in order.
pub open spec fn command_lines(pieces: Seq<Seq<char>>) -> Seq<Seq<char>>
    decreases pieces.len(),
{
    if pieces.len() == 0 {
        Seq::empty()
    } else {
        match command_line(pieces.last()) {
            Some(line) => command_lines(pieces.drop_last()).push(line),
            None => command_lines(pieces.drop_last()),
        }
    }
}

/// The command lines that an alias stands for when it is called with
/// `args`.
pub open spec fn alias_lines(commands: Seq<char>, args: Seq<Seq<char>>) -> Seq<Seq<char>> {
    command_lines(split_on(expanded(commands, args), ';'))
}

/// The message for a command that nobody knows.
pub open spec fn unknown_command(name: Seq<char>) -> Seq<char> {
    "Unknown command: "@ + name
}

/// The message for an alias that expands too deep.
pub open spec fn too_deep(name: Seq<char>) -> Seq<char> {
    "Maximum alias expansion depth ("@ + decimal(MAX_ALIAS_DEPTH as nat)
        + ") exceeded. Possible recursive alias: "@ + name
}

fn substitute(text: Vec<char>, pattern: &Vec<char>, with: &Vec<char>) -> (done: (Vec<char>, bool))
    requires
        pattern@.len() > 0,
    ensures
        done.0@ == replaced(text@, pattern@, with@),
        done.1 == occurs(text@, pattern@),
{
    proof {
        lemma_find_from(text@, pattern@, 0);
    }
    match find(&text, pattern, 0) {
        Some(_) => (replace_all(&text, pattern, with), true),
        None => {
            proof {
                assert(text@.skip(0) =~= text@);
            }
            (text, false)
        },
    }
}

fn find_last(text: &Vec<char>, c: char) -> (at: Option<usize>)
    ensures
        match at {
            Some(i) => last_index(text@, c) == Some(i as int) && i < text@.len(),
            None => last_index(text@, c) is None,
        },
{
    let mut i: usize = text.len();
    proof {
        assert(text@.take(i as int) =~= text@);
    }
    while i > 0
        invariant
            i <= text@.len(),
            last_index(text@, c) == last_index(text@.take(i as int), c),
        decreases i,
    {
        proof {
            assert(text@.take(i as int).last() == text@[i - 1]);
            assert(text@.take(i as int).drop_last() =~= text@.take(i - 1));
        }
        if text[i - 1] == c {
            return Some(i - 1);
        }
        i -= 1;
    }
    None
}

impl Executor {
    /// Takes a command line apart: the markup is taken out, the first word
    /// without its `!` is the name of the command, the other words are its
    /// arguments. A line without words, or whose first word does not begin
    /// with `!`, is refused.
    pub fn parse_command_line(cmdline: &str) -> (parsed: Result<CommandLine, Error>)
        ensures
            match parsed {
                Ok(line) => {
                    let found = words(sanitized(cmdline@));
                    &&& found.len() > 0
                    &&& found[0].len() > 0
                    &&& found[0][0] == '!'
                    &&& line.name@ == found[0].skip(1)
                    &&& line.args.deep_view() == found.skip(1)
                },
                Err(e) => {
                    let found = words(sanitized(cmdline@));
                    &&& e is InvalidArgument
                    &&& found.len() == 0 ==> e.message() == "No command provided"@
                    &&& found.len() > 0 ==> (found[0].len() == 0 || found[0][0] != '!')
                        && e.message() == "Command must start with '!'"@
                },
            },
    {
        let clean = Self::sanitize_command_line(cmdline);
        let chars = chars_of(clean.as_str());
        let mut found = split_words(&chars);
        let ghost all = found.deep_view();
        if found.len() == 0 {
            return Err(Error::InvalidArgument(String::from_str("No command provided")));
        }
        let first = found.remove(0);
        proof {
            assert(first@ == all[0]);
            assert(found.deep_view() =~= all.skip(1));
        }
        let head = chars_of(first.as_str());
        if head.len() > 0 && head[0] == '!' {
            let mut name: Vec<char> = Vec::new();
            let n = head.len();
            push_range(&mut name, &head, 1, n);
            proof {
                assert(name@ =~= all[0].skip(1));
            }
            Ok(CommandLine { name: string_of(&name), args: found })
        } else {
            Err(Error::InvalidArgument(String::from_str("Command must start with '!'")))
        }
    }

    /// The command that the bot knows under `name`, if it knows one.
    pub fn builtin(name: &str) -> (command: Option<BuiltinCommand>)
        ensures
            command == builtin_named(name@),
    {
        let chars = chars_of(name);
        if chars_equal(&chars, "alias") {
            Some(BuiltinCommand::Alias)
        } else if chars_equal(&chars, "bind") {
            Some(BuiltinCommand::Bind)
        } else if chars_equal(&chars, "farewell") {
            Some(BuiltinCommand::Farewell)
        } else if chars_equal(&chars, "greeting") {
            Some(BuiltinCommand::Greeting)
        } else if chars_equal(&chars, "ping") {
            Some(BuiltinCommand::Ping)
        } else if chars_equal(&chars, "sound") {
            Some(BuiltinCommand::Sound)
        } else {
            None
        }
    }

    /// Fills the arguments into the commands of an alias and hands out the
    /// command lines, each with a `!` in front, in the order in which they
    /// are to be carried out.
    pub fn expand_alias(alias_commands: &str, args: &Vec<String>) -> (lines: Vec<String>)
        ensures
            lines.deep_view() == alias_lines(alias_commands@, args.deep_view()),
    {
        let ghost given = args.deep_view();
        let joined_text = join_strings(args, " ");
        let joined = chars_of(joined_text.as_str());
        let text = chars_of(alias_commands);
        proof {
            reveal_strlit("$@");
            reveal_strlit("$#");
            reveal_strlit(" ");
        }
        let all = chars_of("$@");
        let (text, hit_all) = substitute(text, &all, &joined);
        let count_mark = chars_of("$#");
        let mut count_text = String::new();
        push_decimal(&mut count_text, args.len() as u64);
        let count = chars_of(count_text.as_str());
        proof {
            assert(count@ =~= decimal(given.len()));
        }
        let (text, hit_count) = substitute(text, &count_mark, &count);
        let ghost base = text@;
        let mut text = text;
        let mut hit = false;
        let mut i: usize = 0;
        while i < args.len()
            invariant
                i <= args@.len(),
                given == args.deep_view(),
                text@ == numbered(base, given, i as nat),
                hit == numbered_hit(base, given, i as nat),
            decreases args@.len() - i,
        {
            let mut mark = String::new();
            mark.push('$');
            push_decimal(&mut mark, (i + 1) as u64);
            let pattern = chars_of(mark.as_str());
            let with = chars_of(args[i].as_str());
            proof {
                assert(pattern@ =~= placeholder((i + 1) as nat));
                assert(with@ == given[i as int]);
            }
            let (next, found) = substitute(text, &pattern, &with);
            text = next;
            hit = hit || found;
            i += 1;
        }
        let performed = hit_all || hit_count || hit;
        proof {
            assert(performed == substitutes(alias_commands@, given));
            assert(text@ == substituted(alias_commands@, given));
        }
        let expansion: Vec<char> = if performed {
            text
        } else {
            let source = chars_of(alias_commands);
            let n = source.len();
            let mut out: Vec<char> = Vec::new();
            match find_last(&source, ';') {
                Some(at) => {
                    push_range(&mut out, &source, 0, at + 1);
                    let m = joined.len();
                    push_range(&mut out, &joined, 0, m);
                    push_range(&mut out, &source, at + 1, n);
                    proof {
                        assert(joined@.subrange(0, m as int) =~= joined@);
                        assert(source@.subrange(0, at + 1) =~= source@.take(at + 1));
                        assert(source@.subrange(at + 1, n as int) =~= source@.skip(at + 1));
                        assert(out@ =~= appended(alias_commands@, given));
                    }
                },
                None => {
                    push_range(&mut out, &source, 0, n);
                    out.push(' ');
                    let m = joined.len();
                    push_range(&mut out, &joined, 0, m);
                    proof {
                        assert(joined@.subrange(0, m as int) =~= joined@);
                        assert(source@.subrange(0, n as int) =~= source@);
                        assert(" "@ =~= seq![' ']);
                        assert(out@ =~= appended(alias_commands@, given));
                    }
                },
            }
            out
        };
        proof {
            assert(expansion@ == expanded(alias_commands@, given));
        }
        let pieces = split_at(&expansion, ';');
        let ghost parts = texts(pieces@);
        let mut lines: Vec<String> = Vec::new();
        let mut k: usize = 0;
        proof {
            assert(parts.take(0) =~= Seq::<Seq<char>>::empty());
            assert(lines.deep_view() =~= Seq::<Seq<char>>::empty());
        }
        while k < pieces.len()
            invariant
                k <= pieces@.len(),
                parts == texts(pieces@),
                lines.deep_view() == command_lines(parts.take(k as int)),
            decreases pieces@.len() - k,
        {
            let ghost done = lines.deep_view();
            let piece = &pieces[k];
            let n = piece.len();
            let (front, back) = trim_range(piece, 0, n);
            proof {
                assert(piece@.subrange(0, n as int) =~= piece@);
                assert(parts.take(k + 1).drop_last() =~= parts.take(k as int));
                assert(parts.take(k + 1).last() == piece@);
            }
            if back > front {
                let mut line: Vec<char> = Vec::new();
                if piece[front] != '!' {
                    line.push('!');
                }
                push_range(&mut line, piece, front, back);
                proof {
                    let t = trimmed(piece@);
                    assert(t[0] == piece@[front as int]);
                    assert(line@ =~= normalized(t));
                }
                lines.push(string_of(&line));
                proof {
                    assert(lines.deep_view() =~= done.push(line@));
                }
            }
            k += 1;
        }
        proof {
            assert(parts.take(pieces@.len() as int) =~= parts);
        }
        lines
    }

    /// What a name that is no command of the bot leads to: the command
    /// lines of the alias of that name, to be carried out one level deeper;
    /// or an error, where there is no such alias or the expansion has gone
    /// too deep. `alias` holds the commands of the alias, if there is one.
    pub fn resolve_alias(
        name: &str,
        alias: Option<&str>,
        args: &Vec<String>,
        current_depth: u32,
    ) -> (resolved: Result<(Vec<String>, u32), Error>)
        ensures
            resolved is Ok <==> alias is Some && current_depth < MAX_ALIAS_DEPTH,
            resolved matches Ok((lines, depth)) ==> {
                &&& lines.deep_view() == alias_lines(alias->Some_0@, args.deep_view())
                &&& depth == current_depth + 1
            },
            resolved matches Err(e) ==> {
                &&& e is InvalidArgument
                &&& alias is None ==> e.message() == unknown_command(name@)
                &&& alias is Some ==> e.message() == too_deep(name@)
            },
    {
        match alias {
            None => {
                let mut message = String::from_str("Unknown command: ");
                message.append(name);
                Err(Error::InvalidArgument(message))
            },
            Some(commands) => {
                if current_depth >= MAX_ALIAS_DEPTH {
                    let mut message = String::from_str("Maximum alias expansion depth (");
                    push_decimal(&mut message, MAX_ALIAS_DEPTH as u64);
                    message.append(") exceeded. Possible recursive alias: ");
                    message.append(name);
                    proof {
                        assert(message@ =~= too_deep(name@));
                    }
                    Err(Error::InvalidArgument(message))
                } else {
                    Ok((Self::expand_alias(commands, args), current_depth + 1))
                }
            },
        }
    }
}


/// The commands that users set for themselves.
#[derive(Debug, Clone, Copy, PartialEq, Eq, Structural)]
pub enum PersonalCommand {
    Bind,
    Greeting,
    Farewell,
}

/// What a personal command does first.
#[derive(Debug, Clone, Copy, PartialEq, Eq, Structural)]
pub enum PersonalPlan {
    /// Nobody triggered the command.
    NoUser,
    /// Nothing is known about the user who triggered it.
    NoUserInfo,
    /// The user has no name.
    NoUsername,
    /// There is nowhere to keep settings.
    NoManager,
    /// The stored command of the user is looked up and carried out.
    Run,
    /// The arguments are stored as the command of the user.
    Store,
}

/// What is known about the user who triggered a command.
#[derive(Debug, Clone, Copy, PartialEq, Eq, Structural)]
pub enum KnownUser {
    /// Nothing.
    Unknown,
    /// The user, but no name.
    Nameless,
    /// The user and a name.
    Named,
}

/// What a personal command does first: without a user with a name nothing
/// can be done; without arguments the stored command is run; with
/// arguments they are stored.
pub open spec fn personal_plan(
    user_id: Option<u32>,
    user: KnownUser,
    has_manager: bool,
    arguments: nat,
) -> PersonalPlan {
    if user_id is None {
        PersonalPlan::NoUser
    } else if user == KnownUser::Unknown {
        PersonalPlan::NoUserInfo
    } else if user == KnownUser::Nameless {
        PersonalPlan::NoUsername
    } else if !has_manager {
        PersonalPlan::NoManager
    } else if arguments == 0 {
        PersonalPlan::Run
    } else {
        PersonalPlan::Store
    }
}

/// What is known of a user from the name on record: a name that is empty
/// is none.
pub open spec fn known_user(name: Option<Option<Seq<char>>>) -> KnownUser {
    match name {
        None => KnownUser::Unknown,
        Some(None) => KnownUser::Nameless,
        Some(Some(n)) => if n.len() == 0 {
            KnownUser::Nameless
        } else {
            KnownUser::Named
        },
    }
}

impl PersonalCommand {
    /// The word by which the command is called.
    pub open spec fn word(self) -> Seq<char> {
        match self {
            PersonalCommand::Bind => "bind"@,
            PersonalCommand::Greeting => "greeting"@,
            PersonalCommand::Farewell => "farewell"@,
        }
    }

    /// The word by which the command is called.
    pub fn name(&self) -> (word: &'static str)
        ensures
            word@ == self.word(),
    {
        match self {
            PersonalCommand::Bind => "bind",
            PersonalCommand::Greeting => "greeting",
            PersonalCommand::Farewell => "farewell",
        }
    }

    /// Decides what the command does first. `user_name` holds what is on
    /// record about the user who triggered it: nothing, no name, or a name.
    pub fn plan(
        &self,
        context: &CommandContext,
        user_name: Option<Option<&str>>,
        has_manager: bool,
        args: &Vec<String>,
    ) -> (plan: PersonalPlan)
        ensures
            plan == personal_plan(
                context.triggering_user_id,
                known_user(
                    match user_name {
                        None => None,
                        Some(None) => Some(None),
                        Some(Some(n)) => Some(Some(n@)),
                    },
                ),
                has_manager,
                args@.len(),
            ),
    {
        if context.triggering_user_id.is_none() {
            return PersonalPlan::NoUser;
        }
        match user_name {
            None => PersonalPlan::NoUserInfo,
            Some(None) => PersonalPlan::NoUsername,
            Some(Some(name)) => {
                let chars = chars_of(name);
                if chars.len() == 0 {
                    PersonalPlan::NoUsername
                } else if !has_manager {
                    PersonalPlan::NoManager
                } else if args.len() == 0 {
                    PersonalPlan::Run
                } else {
                    PersonalPlan::Store
                }
            },
        }
    }

    /// The command that is stored for the arguments: the arguments joined
    /// by spaces, with a `!` in front.
    pub fn stored_command(args: &Vec<String>) -> (command: String)
        ensures
            command@ == normalized(join(args.deep_view(), " "@)),
    {
        let joined = join_strings(args, " ");
        normalize_command(joined.as_str())
    }
}

/// A table in HTML without borders: a row of centred, bold headers, then a
/// row for each of `rows`.
pub open spec fn html_table(headers: Seq<Seq<char>>, rows: Seq<Seq<Seq<char>>>) -> Seq<char> {
    "<table style=\"border-collapse: collapse; width: 100%; border: none;\">"@ + "<tr>"@
        + header_cells(headers) + "</tr>"@ + table_rows(rows) + "</table>"@
}

/// The cells of the header row.
pub open spec fn header_cells(headers: Seq<Seq<char>>) -> Seq<char>
    decreases headers.len(),
{
    if headers.len() == 0 {
        Seq::empty()
    } else {
        header_cells(headers.drop_last())
            + "<th style=\"text-align: center; font-weight: bold; padding: 0 8px; border: none;\">"@
            + headers.last() + "</th>"@
    }
}

/// The cells of a row.
pub open spec fn row_cells(cells: Seq<Seq<char>>) -> Seq<char>
    decreases cells.len(),
{
    if cells.len() == 0 {
        Seq::empty()
    } else {
        row_cells(cells.drop_last())
            + "<td style=\"text-align: left; padding: 0 8px; border: none;\">"@ + cells.last()
            + "</td>"@
    }
}

/// The rows of a table.
pub open spec fn table_rows(rows: Seq<Seq<Seq<char>>>) -> Seq<char>
    decreases rows.len(),
{
    if rows.len() == 0 {
        Seq::empty()
    } else {
        table_rows(rows.drop_last()) + "<tr>"@ + row_cells(rows.last()) + "</tr>"@
    }
}

fn push_row(table: &mut String, cells: &Vec<String>)
    ensures
        final(table)@ == old(table)@ + "<tr>"@ + row_cells(cells.deep_view()) + "</tr>"@,
{
    table.append("<tr>");
    let ghost start = table@;
    let mut i: usize = 0;
    proof {
        assert(cells.deep_view().take(0) =~= Seq::<Seq<char>>::empty());
        assert(start + Seq::<char>::empty() =~= start);
    }
    while i < cells.len()
        invariant
            i <= cells@.len(),
            table@ == start + row_cells(cells.deep_view().take(i as int)),
        decreases cells@.len() - i,
    {
        proof {
            assert(cells.deep_view().take(i + 1).drop_last() =~= cells.deep_view().take(i as int));
            assert(cells.deep_view().take(i + 1).last() == cells@[i as int]@);
        }
        let ghost before = table@;
        table.append("<td style=\"text-align: left; padding: 0 8px; border: none;\">");
        table.append(cells[i].as_str());
        table.append("</td>");
        proof {
            assert(table@ =~= start + row_cells(cells.deep_view().take(i + 1)));
        }
        i += 1;
    }
    proof {
        assert(cells.deep_view().take(cells@.len() as int) =~= cells.deep_view());
    }
    table.append("</tr>");
    proof {
        assert(table@ =~= old(table)@ + "<tr>"@ + row_cells(cells.deep_view()) + "</tr>"@);
    }
}

/// Builds a table in HTML without borders, with bold, centred headers.
pub fn create_html_table(headers: &Vec<String>, rows: &Vec<Vec<String>>) -> (table: String)
    ensures
        table@ == html_table(headers.deep_view(), rows.deep_view()),
{
    let mut table = String::from_str(
        "<table style=\"border-collapse: collapse; width: 100%; border: none;\">",
    );
    table.append("<tr>");
    let ghost start = table@;
    let mut i: usize = 0;
    proof {
        assert(headers.deep_view().take(0) =~= Seq::<Seq<char>>::empty());
        assert(start + Seq::<char>::empty() =~= start);
    }
    while i < headers.len()
        invariant
            i <= headers@.len(),
            table@ == start + header_cells(headers.deep_view().take(i as int)),
        decreases headers@.len() - i,
    {
        proof {
            assert(headers.deep_view().take(i + 1).drop_last() =~= headers.deep_view().take(
                i as int,
            ));
            assert(headers.deep_view().take(i + 1).last() == headers@[i as int]@);
        }
        table.append(
            "<th style=\"text-align: center; font-weight: bold; padding: 0 8px; border: none;\">",
        );
        table.append(headers[i].as_str());
        table.append("</th>");
        proof {
            assert(table@ =~= start + header_cells(headers.deep_view().take(i + 1)));
        }
        i += 1;
    }
    proof {
        assert(headers.deep_view().take(headers@.len() as int) =~= headers.deep_view());
    }
    table.append("</tr>");
    let ghost head = table@;
    let mut r: usize = 0;
    proof {
        assert(rows.deep_view().take(0) =~= Seq::<Seq<Seq<char>>>::empty());
        assert(head + Seq::<char>::empty() =~= head);
    }
    while r < rows.len()
        invariant
            r <= rows@.len(),
            table@ == head + table_rows(rows.deep_view().take(r as int)),
        decreases rows@.len() - r,
    {
        proof {
            assert(rows.deep_view().take(r + 1).drop_last() =~= rows.deep_view().take(r as int));
            assert(rows.deep_view().take(r + 1).last() == rows@[r as int].deep_view());
        }
        push_row(&mut table, &rows[r]);
        proof {
            assert(table@ =~= head + table_rows(rows.deep_view().take(r + 1)));
        }
        r += 1;
    }
    proof {
        assert(rows.deep_view().take(rows@.len() as int) =~= rows.deep_view());
    }
    table.append("</table>");
    proof {
        assert(table@ =~= html_table(headers.deep_view(), rows.deep_view()));
    }
    table
}


} // verus!
