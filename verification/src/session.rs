//! What the session layer needs from the library: the formatting of
//! replies, the kinds of outgoing message, and the framing of control
//! messages.

use std::collections::VecDeque;
use vstd::prelude::*;

use crate::commands::CommandContext;
use crate::config::{FarewellMode, GreetingMode};

use crate::protos::types::{MESSAGE_PING, MESSAGE_TEXT_MESSAGE, MESSAGE_UDP_TUNNEL};
use crate::text::{
    chars_of, find, find_from, lemma_find_from, push_range, push_word, string_of,
};

verus! {

/// A message on its way to the server.
#[derive(Debug)]
pub enum OutgoingMessage {
    /// An encoded audio frame.
    AudioData(Vec<u8>),
    /// A text for a channel.
    TextMessage(String, u32),
    /// A text for a user.
    PrivMessage(String, u32),
    /// A payload of the given kind, already serialised.
    Raw(u16, Vec<u8>),
    Ping,
}

impl OutgoingMessage {
    /// The number of the kind of control message that carries this message.
    pub open spec fn kind(self) -> u16 {
        match self {
            OutgoingMessage::AudioData(_) => MESSAGE_UDP_TUNNEL,
            OutgoingMessage::TextMessage(_, _) => MESSAGE_TEXT_MESSAGE,
            OutgoingMessage::PrivMessage(_, _) => MESSAGE_TEXT_MESSAGE,
            OutgoingMessage::Raw(kind, _) => kind,
            OutgoingMessage::Ping => MESSAGE_PING,
        }
    }

    /// The number of the kind of control message that carries this message.
    pub fn message_type(&self) -> (kind: u16)
        ensures
            kind == self.kind(),
    {
        match self {
            OutgoingMessage::AudioData(_) => MESSAGE_UDP_TUNNEL,
            OutgoingMessage::TextMessage(_, _) => MESSAGE_TEXT_MESSAGE,
            OutgoingMessage::PrivMessage(_, _) => MESSAGE_TEXT_MESSAGE,
            OutgoingMessage::Raw(kind, _) => *kind,
            OutgoingMessage::Ping => MESSAGE_PING,
        }
    }
}

/// The header of a control message: its kind in two bytes and the length
/// of its payload in four, both big-endian.
pub open spec fn frame_header_spec(msg_type: u16, length: u32) -> Seq<u8> {
    seq![
        (msg_type / 256) as u8,
        (msg_type % 256) as u8,
        (length / 0x100_0000) as u8,
        ((length / 0x1_0000) % 256) as u8,
        ((length / 0x100) % 256) as u8,
        (length % 256) as u8,
    ]
}

/// Builds the header of a control message.
pub fn frame_header(msg_type: u16, length: u32) -> (header: Vec<u8>)
    ensures
        header@ == frame_header_spec(msg_type, length),
{
    let mut header: Vec<u8> = Vec::new();
    header.push((msg_type / 256) as u8);
    header.push((msg_type % 256) as u8);
    header.push((length / 0x100_0000) as u8);
    header.push(((length / 0x1_0000) % 256) as u8);
    header.push(((length / 0x100) % 256) as u8);
    header.push((length % 256) as u8);
    proof {
        assert(header@ =~= frame_header_spec(msg_type, length));
    }
    header
}

/// The kind that a header names.
pub open spec fn header_kind(header: Seq<u8>) -> int {
    header[0] as int * 256 + header[1] as int
}

/// The length of payload that a header announces.
pub open spec fn header_length(header: Seq<u8>) -> int {
    header[2] as int * 0x100_0000 + header[3] as int * 0x1_0000 + header[4] as int * 0x100
        + header[5] as int
}

/// Reads the header of a control message: the kind and the length of the
/// payload. `None` unless there are exactly six bytes.
pub fn parse_frame_header(header: &[u8]) -> (parsed: Option<(u16, u32)>)
    ensures
        parsed is Some <==> header@.len() == 6,
        parsed matches Some((msg_type, length)) ==> msg_type == header_kind(header@) && length
            == header_length(header@),
{
    if header.len() != 6 {
        return None;
    }
    let msg_type: u16 = (header[0] as u16) * 256 + header[1] as u16;
    let length: u32 = (header[2] as u32) * 0x100_0000 + (header[3] as u32) * 0x1_0000 + (
    header[4] as u32) * 0x100 + header[5] as u32;
    Some((msg_type, length))
}

/// A header that was built is read back as it was meant.
pub proof fn lemma_header_round_trip(msg_type: u16, length: u32)
    ensures
        header_kind(frame_header_spec(msg_type, length)) == msg_type,
        header_length(frame_header_spec(msg_type, length)) == length,
{
}

/// What stands for `c` in HTML.
pub open spec fn escaped_char(c: char) -> Seq<char> {
    if c == '&' {
        "&amp;"@
    } else if c == '<' {
        "&lt;"@
    } else if c == '>' {
        "&gt;"@
    } else if c == '"' {
        "&quot;"@
    } else if c == '\'' {
        "&#x27;"@
    } else {
        seq![c]
    }
}

/// `text` with the characters that HTML reserves replaced by entities.
pub open spec fn escaped(text: Seq<char>) -> Seq<char>
    decreases text.len(),
{
    if text.len() == 0 {
        Seq::empty()
    } else {
        escaped(text.drop_last()) + escaped_char(text.last())
    }
}

/// `text` from `from` on, with every span between two delimiters replaced
/// by its escaped content between `open` and `close`. A delimiter without a
/// partner ends the search: the rest stays as it is.
pub open spec fn wrapped_from(
    text: Seq<char>,
    delimiter: Seq<char>,
    open: Seq<char>,
    close: Seq<char>,
    from: int,
) -> Seq<char>
    decreases text.len() - from,
{
    match find_from(text, delimiter, from) {
        None => text.skip(from),
        Some(start) => match find_from(text, delimiter, start + delimiter.len()) {
            None => text.skip(from),
            Some(end) => if delimiter.len() > 0 && from <= start && start + delimiter.len() <= end
                && end + delimiter.len() <= text.len() {
                text.subrange(from, start) + open + escaped(
                    text.subrange(start + delimiter.len(), end),
                ) + close + wrapped_from(text, delimiter, open, close, end + delimiter.len())
            } else {
                text.skip(from)
            },
        },
    }
}

/// `text` with every line feed replaced by a line break of HTML.
pub open spec fn line_breaks(text: Seq<char>) -> Seq<char>
    decreases text.len(),
{
    if text.len() == 0 {
        Seq::empty()
    } else if text.last() == '\n' {
        line_breaks(text.drop_last()) + "<br>"@
    } else {
        line_breaks(text.drop_last()).push(text.last())
    }
}

/// The HTML for a reply in minimal markdown: text between double
/// asterisks becomes bold, then text between backticks becomes monospace,
/// both escaped, and at last every line feed becomes a line break.
pub open spec fn markdown_html(input: Seq<char>) -> Seq<char> {
    let bold = wrapped_from(input, "**"@, "<b>"@, "</b>"@, 0);
    let code = wrapped_from(bold, "`"@, "<tt>"@, "</tt>"@, 0);
    line_breaks(code)
}

fn push_escaped(out: &mut Vec<char>, source: &Vec<char>, from: usize, to: usize)
    requires
        from <= to <= source@.len(),
    ensures
        final(out)@ == old(out)@ + escaped(source@.subrange(from as int, to as int)),
{
    let mut i: usize = from;
    proof {
        assert(source@.subrange(from as int, from as int) =~= Seq::<char>::empty());
        assert(old(out)@ + Seq::<char>::empty() =~= old(out)@);
    }
    while i < to
        invariant
            from <= i <= to,
            to <= source@.len(),
            out@ == old(out)@ + escaped(source@.subrange(from as int, i as int)),
        decreases to - i,
    {
        let c = source[i];
        let ghost before = out@;
        if c == '&' {
            push_word(out, "&amp;");
        } else if c == '<' {
            push_word(out, "&lt;");
        } else if c == '>' {
            push_word(out, "&gt;");
        } else if c == '"' {
            push_word(out, "&quot;");
        } else if c == '\'' {
            push_word(out, "&#x27;");
        } else {
            out.push(c);
            proof {
                assert(out@ =~= before + seq![c]);
            }
        }
        proof {
            let next = source@.subrange(from as int, i + 1);
            assert(next.drop_last() =~= source@.subrange(from as int, i as int));
            assert(next.last() == c);
            assert(out@ =~= old(out)@ + escaped(next));
        }
        i += 1;
    }
}

/// Replaces the characters that HTML reserves by entities.
pub fn escape_html(input: &str) -> (output: String)
    ensures
        output@ == escaped(input@),
{
    let chars = chars_of(input);
    let mut out: Vec<char> = Vec::new();
    let n = chars.len();
    push_escaped(&mut out, &chars, 0, n);
    proof {
        assert(chars@.subrange(0, n as int) =~= input@);
        assert(out@ =~= escaped(input@));
    }
    string_of(&out)
}

fn wrap_spans(text: &Vec<char>, delimiter: &str, open: &str, close: &str) -> (out: Vec<char>)
    requires
        delimiter@.len() > 0,
    ensures
        out@ == wrapped_from(text@, delimiter@, open@, close@, 0),
{
    let mark = chars_of(delimiter);
    let width = mark.len();
    let length = text.len();
    let mut out: Vec<char> = Vec::new();
    let mut from: usize = 0;
    proof {
        assert(out@ + wrapped_from(text@, delimiter@, open@, close@, 0) =~= wrapped_from(
            text@,
            delimiter@,
            open@,
            close@,
            0,
        ));
    }
    loop
        invariant_except_break
            wrapped_from(text@, delimiter@, open@, close@, 0) == out@ + wrapped_from(
                text@,
                delimiter@,
                open@,
                close@,
                from as int,
            ),
        invariant
            from <= length,
            length == text@.len(),
            width == mark@.len(),
            mark@ == delimiter@,
            width > 0,
        ensures
            out@ == wrapped_from(text@, delimiter@, open@, close@, 0),
        decreases length - from,
    {
        let ghost done = out@;
        let ghost rest = wrapped_from(text@, delimiter@, open@, close@, from as int);
        proof {
            lemma_find_from(text@, delimiter@, from as int);
        }
        let start = match find(text, &mark, from) {
            Some(start) => start,
            None => {
                push_range(&mut out, text, from, length);
                proof {
                    assert(text@.subrange(from as int, length as int) =~= text@.skip(from as int));
                }
                break;
            },
        };
        proof {
            lemma_find_from(text@, delimiter@, start + width);
        }
        let end = match find(text, &mark, start + width) {
            Some(end) => end,
            None => {
                push_range(&mut out, text, from, length);
                proof {
                    assert(text@.subrange(from as int, length as int) =~= text@.skip(from as int));
                }
                break;
            },
        };
        push_range(&mut out, text, from, start);
        push_word(&mut out, open);
        push_escaped(&mut out, text, start + width, end);
        push_word(&mut out, close);
        proof {
            assert(out@ + wrapped_from(text@, delimiter@, open@, close@, end + width) =~= done
                + rest);
        }
        from = end + width;
    }
    out
}

fn break_lines(text: &Vec<char>) -> (out: Vec<char>)
    ensures
        out@ == line_breaks(text@),
{
    let mut out: Vec<char> = Vec::new();
    let mut i: usize = 0;
    proof {
        assert(text@.take(0) =~= Seq::<char>::empty());
    }
    while i < text.len()
        invariant
            i <= text@.len(),
            out@ == line_breaks(text@.take(i as int)),
        decreases text@.len() - i,
    {
        let c = text[i];
        proof {
            assert(text@.take(i + 1).drop_last() =~= text@.take(i as int));
            assert(text@.take(i + 1).last() == c);
        }
        if c == '\n' {
            push_word(&mut out, "<br>");
        } else {
            out.push(c);
        }
        i += 1;
    }
    proof {
        assert(text@.take(text@.len() as int) =~= text@);
    }
    out
}

/// Converts minimal markdown to HTML: `**bold**` and `` `code` `` spans,
/// with their content escaped, and line feeds.
pub fn markdown_to_html(input: &str) -> (output: String)
    ensures
        output@ == markdown_html(input@),
{
    let chars = chars_of(input);
    proof {
        reveal_strlit("**");
        reveal_strlit("`");
    }
    let bold = wrap_spans(&chars, "**", "<b>", "</b>");
    let code = wrap_spans(&bold, "`", "<tt>", "</tt>");
    let broken = break_lines(&code);
    string_of(&broken)
}

/// How many played sounds are remembered.
pub const HISTORY_LIMIT: usize = 50;

/// What is played for a user who joins or leaves.
#[derive(Debug, Clone, Copy, PartialEq, Eq, Structural)]
pub enum AutoPlay {
    /// Nothing.
    Nothing,
    /// A random sound.
    Random,
    /// The command of the user, which is to be looked up.
    Custom,
}

/// Whether a random sound stands in when the greeting of the user is not
/// to be had.
pub open spec fn greets_all(mode: GreetingMode) -> bool {
    mode == GreetingMode::All
}

/// Whether a random sound stands in when the farewell of the user is not
/// to be had.
pub open spec fn sees_off_all(mode: FarewellMode) -> bool {
    mode == FarewellMode::All
}

/// What is played first for a user: nothing where the mode is off; the
/// command of the user where the user has a name and settings are kept;
/// else a random sound, if the mode plays for all.
pub open spec fn auto_play(off: bool, all: bool, named: bool, has_manager: bool) -> AutoPlay {
    if off {
        AutoPlay::Nothing
    } else if named && has_manager {
        AutoPlay::Custom
    } else if all {
        AutoPlay::Random
    } else {
        AutoPlay::Nothing
    }
}

/// Whether `name` is a name: present and not empty.
pub open spec fn is_named(name: Option<Seq<char>>) -> bool {
    name matches Some(n) && n.len() > 0
}

fn named(name: Option<&str>) -> (yes: bool)
    ensures
        yes == is_named(
            match name {
                Some(n) => Some(n@),
                None => None,
            },
        ),
{
    match name {
        Some(n) => n.unicode_len() > 0,
        None => false,
    }
}

/// Decides what is played when a user joins.
pub fn greeting_plan(mode: GreetingMode, username: Option<&str>, has_manager: bool) -> (plan:
    AutoPlay)
    ensures
        plan == auto_play(
            mode == GreetingMode::Off,
            greets_all(mode),
            is_named(
                match username {
                    Some(n) => Some(n@),
                    None => None,
                },
            ),
            has_manager,
        ),
{
    let known = named(username);
    match mode {
        GreetingMode::Off => AutoPlay::Nothing,
        GreetingMode::All => if known && has_manager {
            AutoPlay::Custom
        } else {
            AutoPlay::Random
        },
        GreetingMode::Custom => if known && has_manager {
            AutoPlay::Custom
        } else {
            AutoPlay::Nothing
        },
    }
}

/// Decides what is played when a user leaves.
pub fn farewell_plan(mode: FarewellMode, username: Option<&str>, has_manager: bool) -> (plan:
    AutoPlay)
    ensures
        plan == auto_play(
            mode == FarewellMode::Off,
            sees_off_all(mode),
            is_named(
                match username {
                    Some(n) => Some(n@),
                    None => None,
                },
            ),
            has_manager,
        ),
{
    let known = named(username);
    match mode {
        FarewellMode::Off => AutoPlay::Nothing,
        FarewellMode::All => if known && has_manager {
            AutoPlay::Custom
        } else {
            AutoPlay::Random
        },
        FarewellMode::Custom => if known && has_manager {
            AutoPlay::Custom
        } else {
            AutoPlay::Nothing
        },
    }
}

/// Whether a random sound is played after the greeting of the user was not
/// to be had, because there is none, or it could not be looked up or
/// carried out: only where the mode plays for all.
pub fn greeting_fallback(mode: GreetingMode) -> (random: bool)
    ensures
        random == greets_all(mode),
{
    match mode {
        GreetingMode::All => true,
        _ => false,
    }
}

/// Whether a random sound is played after the farewell of the user was not
/// to be had, because there is none, or it could not be looked up or
/// carried out: only where the mode plays for all.
pub fn farewell_fallback(mode: FarewellMode) -> (random: bool)
    ensures
        random == sees_off_all(mode),
{
    match mode {
        FarewellMode::All => true,
        _ => false,
    }
}

/// The name to keep for a user whose state was updated: the new name,
/// unless it is missing or empty and a name is known already.
pub fn merged_name(incoming: Option<String>, known: Option<&String>) -> (name: Option<String>)
    ensures
        name == if is_named(
            match incoming {
                Some(n) => Some(n@),
                None => None,
            },
        ) {
            incoming
        } else {
            match known {
                Some(k) => if k@.len() > 0 {
                    Some(*k)
                } else {
                    incoming
                },
                None => incoming,
            }
        },
{
    let present = match &incoming {
        Some(n) => n.as_str().unicode_len() > 0,
        None => false,
    };
    if present {
        return incoming;
    }
    match known {
        Some(k) => {
            if k.as_str().unicode_len() > 0 {
                Some(k.clone())
            } else {
                incoming
            }
        },
        None => incoming,
    }
}

/// The channel of the bot after its state was seen: the channel that the
/// state names, if it names one.
pub fn channel_after_state(current: Option<u32>, stated: Option<u32>) -> (channel: Option<u32>)
    ensures
        channel == match stated {
            Some(c) => Some(c),
            None => current,
        },
{
    match stated {
        Some(c) => Some(c),
        None => current,
    }
}

/// The channel of the bot after the server is in step: the channel that
/// the state of the bot names, else the one it had, else the root.
pub fn channel_after_sync(current: Option<u32>, stated: Option<u32>) -> (channel: Option<u32>)
    ensures
        channel == Some(
            match stated {
                Some(c) => c,
                None => match current {
                    Some(c) => c,
                    None => 0u32,
                },
            },
        ),
{
    match channel_after_state(current, stated) {
        Some(c) => Some(c),
        None => Some(0),
    }
}

/// What is done about a text message.
#[derive(Debug, Clone, Copy, PartialEq, Eq, Structural)]
pub enum TextAction {
    /// It is no command.
    Ignore,
    /// It is a private command and those are not allowed.
    Refuse,
    /// It is carried out in this context.
    Execute(CommandContext),
}

/// What is done about a text message from `actor`. A message is private
/// when it was sent to sessions rather than to channels.
pub open spec fn text_action(
    message: Seq<char>,
    actor: u32,
    private: bool,
    channel: Option<u32>,
    allow_private: bool,
) -> TextAction {
    if message.len() == 0 || message[0] != '!' {
        TextAction::Ignore
    } else if private && !allow_private {
        TextAction::Refuse
    } else {
        TextAction::Execute(
            CommandContext {
                triggering_user_id: Some(actor),
                source_channel_id: if private {
                    None
                } else {
                    channel
                },
                is_private_message: private,
            },
        )
    }
}

/// Decides what is done about a text message from `actor`. `private` says
/// whether it was sent to sessions; `channel` is the first channel it was
/// sent to.
pub fn triage_text(
    message: &str,
    actor: u32,
    private: bool,
    channel: Option<u32>,
    allow_private: bool,
) -> (action: TextAction)
    ensures
        action == text_action(message@, actor, private, channel, allow_private),
{
    let chars = chars_of(message);
    if chars.len() == 0 || chars[0] != '!' {
        TextAction::Ignore
    } else if private && !allow_private {
        TextAction::Refuse
    } else {
        TextAction::Execute(
            CommandContext {
                triggering_user_id: Some(actor),
                source_channel_id: if private {
                    None
                } else {
                    channel
                },
                is_private_message: private,
            },
        )
    }
}

/// The sounds that were played last, newest first, each with the time at
/// which it was played in seconds since the Unix epoch.
pub struct SoundHistory {
    played: VecDeque<(String, i64)>,
}

impl SoundHistory {
    /// The entries, newest first.
    pub closed spec fn entries(&self) -> Seq<(String, i64)> {
        self.played@
    }

    /// No more entries are kept than the limit.
    pub closed spec fn wf(&self) -> bool {
        self.played@.len() <= HISTORY_LIMIT
    }

    /// An empty history.
    pub fn new() -> (history: Self)
        ensures
            history.wf(),
            history.entries().len() == 0,
    {
        SoundHistory { played: VecDeque::new() }
    }

    /// Puts a played sound in front and lets the oldest entries beyond the
    /// limit go.
    pub fn record_sound_played(&mut self, sound_code: &str, now: i64)
        requires
            old(self).wf(),
        ensures
            final(self).wf(),
            final(self).entries().len() > 0,
            final(self).entries()[0].0@ == sound_code@,
            final(self).entries()[0].1 == now,
            final(self).entries().skip(1) == old(self).entries().take(
                final(self).entries().len() - 1,
            ),
            final(self).entries().len() == if old(self).entries().len() < HISTORY_LIMIT {
                old(self).entries().len() + 1
            } else {
                HISTORY_LIMIT as nat
            },
    {
        let code = sound_code.to_owned();
        self.played.push_front((code, now));
        let ghost pushed = self.played@;
        while self.played.len() > HISTORY_LIMIT
            invariant
                self.played@.len() <= pushed.len(),
                self.played@ == pushed.take(self.played@.len() as int),
                self.played@.len() >= HISTORY_LIMIT || self.played@.len() == pushed.len(),
            decreases self.played@.len(),
        {
            let _ = self.played.pop_back();
            proof {
                assert(self.played@ =~= pushed.take(self.played@.len() as int));
            }
        }
        proof {
            assert(pushed.take(pushed.len() as int) =~= pushed);
            assert(self.played@.skip(1) =~= old(self).entries().take(self.played@.len() - 1));
        }
    }

    /// The newest entries, at most `limit` of them, newest first.
    pub fn get_sound_history(&self, limit: usize) -> (recent: Vec<(String, i64)>)
        ensures
            recent@.len() == if limit < self.entries().len() {
                limit as nat
            } else {
                self.entries().len()
            },
            forall|i: int|
                0 <= i < recent@.len() ==> (#[trigger] recent@[i]).0@ == self.entries()[i].0@
                    && recent@[i].1 == self.entries()[i].1,
    {
        let mut recent: Vec<(String, i64)> = Vec::new();
        let mut i: usize = 0;
        while i < limit && i < self.played.len()
            invariant
                i <= limit,
                i <= self.played@.len(),
                recent@.len() == i,
                forall|k: int|
                    0 <= k < i ==> (#[trigger] recent@[k]).0@ == self.played@[k].0@ && recent@[k].1
                        == self.played@[k].1,
            decreases self.played@.len() - i,
        {
            let entry = &self.played[i];
            recent.push((entry.0.clone(), entry.1));
            i += 1;
        }
        recent
    }

    /// How many sounds are remembered.
    pub fn len(&self) -> (count: usize)
        ensures
            count == self.entries().len(),
    {
        self.played.len()
    }

    /// The entry at `index`, counted from the newest.
    pub fn get(&self, index: usize) -> (entry: Option<&(String, i64)>)
        ensures
            index < self.entries().len() ==> entry == Some(&self.entries()[index as int]),
            index >= self.entries().len() ==> entry is None,
    {
        if index < self.played.len() {
            Some(&self.played[index])
        } else {
            None
        }
    }
}


} // verus!
