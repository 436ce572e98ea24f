//! The race control message log, newest first.
use vstd::prelude::*;

use crate::model::race_control::{FlagColor, MessageCategory, RaceControlMessage};
use crate::model::status::Timestamp;
use crate::text::{self, concat, to_owned_string};
use crate::tui::action::Action;
use crate::tui::color::TermColor;

verus! {

/// The log of race control messages.
#[derive(Clone, Debug, PartialEq, Eq, Default)]
pub struct MessageLog {
    pub messages: Vec<RaceControlMessage>,
}

/// A line of the log: the time, grey; a prefix that tells the category;
/// the message in the category's colour.
#[derive(Clone, Debug, PartialEq, Eq)]
pub struct MessageLine {
    pub time: String,
    pub prefix: String,
    pub prefix_color: TermColor,
    pub prefix_bold: bool,
    pub message: String,
    pub message_color: TermColor,
}

/// The view of a message: its time, category and text.
pub open spec fn message_view(m: RaceControlMessage) -> (Timestamp, MessageCategory, Seq<char>) {
    (m.timestamp, m.category, m.message@)
}

pub open spec fn messages_view(v: Seq<RaceControlMessage>) -> Seq<(Timestamp, MessageCategory, Seq<char>)> {
    v.map_values(|m: RaceControlMessage| message_view(m))
}

/// Two digits of `n` (below 100), with a leading zero.
pub open spec fn two_digits(n: int) -> Seq<char> {
    seq![text::digit_char((n / 10) as nat), text::digit_char((n % 10) as nat)]
}

/// The time of day, UTC, as `HH:MM:SS` (chrono's `%H:%M:%S`; a leap
/// second shows as second 60).
pub open spec fn time_of_day(t: Timestamp) -> Seq<char> {
    let day = t.seconds % 86400;
    let leap: int = if t.nanos >= 1_000_000_000 {
        1
    } else {
        0
    };
    two_digits(day / 3600) + ":"@ + two_digits((day % 3600) / 60) + ":"@ + two_digits(
        day % 60 + leap,
    )
}

/// The colour of a flag.
pub open spec fn flag_color(c: FlagColor) -> TermColor {
    match c {
        FlagColor::Green | FlagColor::Clear => TermColor::Green,
        FlagColor::Yellow | FlagColor::DoubleYellow => TermColor::Yellow,
        FlagColor::Red => TermColor::Red,
        FlagColor::Chequered => TermColor::White,
        FlagColor::Blue => TermColor::Blue,
        FlagColor::BlackAndWhite => TermColor::White,
    }
}

/// The prefix of a category (text, colour, bold) and the colour of its
/// message: a flag glyph in the flag's colour; `⟨SC⟩` bold yellow for the
/// safety car; an information glyph in blue, with the message in white,
/// for anything else.
pub open spec fn category_look(c: MessageCategory) -> (Seq<char>, TermColor, bool, TermColor) {
    match c {
        MessageCategory::Flag(f) => (" \u{f024} "@, flag_color(f.color), false, flag_color(f.color)),
        MessageCategory::SafetyCar => (" \u{27e8}SC\u{27e9} "@, TermColor::Yellow, true, TermColor::Yellow),
        MessageCategory::Other => (" \u{f02fc} "@, TermColor::Blue, false, TermColor::White),
    }
}

/// The view of a line.
pub open spec fn line_view(l: MessageLine) -> (Seq<char>, Seq<char>, TermColor, bool, Seq<char>, TermColor) {
    (l.time@, l.prefix@, l.prefix_color, l.prefix_bold, l.message@, l.message_color)
}

/// The line of a message.
pub open spec fn line_of(m: RaceControlMessage) -> (Seq<char>, Seq<char>, TermColor, bool, Seq<char>, TermColor) {
    let look = category_look(m.category);
    (time_of_day(m.timestamp), look.0, look.1, look.2, m.message@, look.3)
}

fn digit(n: i64) -> (c: char)
    requires
        0 <= n < 10,
    ensures
        c == text::digit_char(n as nat),
{
    match n {
        0 => '0',
        1 => '1',
        2 => '2',
        3 => '3',
        4 => '4',
        5 => '5',
        6 => '6',
        7 => '7',
        8 => '8',
        _ => '9',
    }
}

fn push_two_digits(out: &mut Vec<char>, n: i64)
    requires
        0 <= n < 100,
    ensures
        final(out)@ == old(out)@ + two_digits(n as int),
{
    out.push(digit(n / 10));
    out.push(digit(n % 10));
    assert(final(out)@ =~= old(out)@ + two_digits(n as int));
}

/// The time of day of `t` (see `time_of_day`).
pub fn format_time_of_day(t: Timestamp) -> (s: String)
    ensures
        s@ == time_of_day(t),
{
    let r = t.seconds % 86400;
    let day = if r < 0 {
        r + 86400
    } else {
        r
    };
    assert(day == t.seconds % 86400);
    let leap: i64 = if t.nanos >= 1_000_000_000 {
        1
    } else {
        0
    };
    let mut out: Vec<char> = Vec::new();
    push_two_digits(&mut out, day / 3600);
    out.push(':');
    push_two_digits(&mut out, (day % 3600) / 60);
    out.push(':');
    push_two_digits(&mut out, day % 60 + leap);
    proof {
        reveal_strlit(":");
    }
    assert(out@ =~= time_of_day(t));
    text::string_from_chars(&out)
}

fn flag_term_color(c: FlagColor) -> (r: TermColor)
    ensures
        r == flag_color(c),
{
    match c {
        FlagColor::Green | FlagColor::Clear => TermColor::Green,
        FlagColor::Yellow | FlagColor::DoubleYellow => TermColor::Yellow,
        FlagColor::Red => TermColor::Red,
        FlagColor::Chequered => TermColor::White,
        FlagColor::Blue => TermColor::Blue,
        FlagColor::BlackAndWhite => TermColor::White,
    }
}

/// The line of one message (see `line_of`).
pub fn message_line(m: &RaceControlMessage) -> (l: MessageLine)
    ensures
        line_view(l) == line_of(*m),
{
    let (prefix, prefix_color, prefix_bold, message_color) = match m.category {
        MessageCategory::Flag(f) => {
            let c = flag_term_color(f.color);
            (to_owned_string(" \u{f024} "), c, false, c)
        },
        MessageCategory::SafetyCar => (
            to_owned_string(" \u{27e8}SC\u{27e9} "),
            TermColor::Yellow,
            true,
            TermColor::Yellow,
        ),
        MessageCategory::Other => (
            to_owned_string(" \u{f02fc} "),
            TermColor::Blue,
            false,
            TermColor::White,
        ),
    };
    MessageLine {
        time: format_time_of_day(m.timestamp),
        prefix,
        prefix_color,
        prefix_bold,
        message: m.message.clone(),
        message_color,
    }
}

fn copy_message(m: &RaceControlMessage) -> (r: RaceControlMessage)
    ensures
        message_view(r) == message_view(*m),
{
    RaceControlMessage { timestamp: m.timestamp, category: m.category, message: m.message.clone() }
}

impl MessageLog {
    /// Takes the messages of a state update where there are some and their
    /// number changed, and then asks for a render.
    pub fn update(&mut self, messages: &Vec<RaceControlMessage>) -> (r: Option<Action>)
        ensures
            messages@.len() > 0 && messages@.len() != old(self).messages@.len() ==> r == Some(
                Action::Render,
            ) && messages_view(final(self).messages@) == messages_view(messages@),
            !(messages@.len() > 0 && messages@.len() != old(self).messages@.len()) ==> r is None
                && final(self).messages@ == old(self).messages@,
    {
        let new_len = messages.len();
        let old_len = self.messages.len();
        if new_len > 0 && new_len != old_len {
            let mut copy: Vec<RaceControlMessage> = Vec::new();
            let mut i: usize = 0;
            while i < messages.len()
                invariant
                    i <= messages@.len(),
                    copy@.len() == i,
                    forall|k: int|
                        0 <= k < i ==> message_view(#[trigger] copy@[k]) == message_view(
                            messages@[k],
                        ),
                decreases messages@.len() - i,
            {
                copy.push(copy_message(&messages[i]));
                i = i + 1;
            }
            assert(messages_view(copy@) =~= messages_view(messages@));
            self.messages = copy;
            return Some(Action::Render);
        }
        None
    }

    /// The lines of the log, newest message first.
    pub fn lines(&self) -> (r: Vec<MessageLine>)
        ensures
            r@.len() == self.messages@.len(),
            forall|i: int|
                0 <= i < r@.len() ==> line_view(#[trigger] r@[i]) == line_of(
                    self.messages@[self.messages@.len() - 1 - i],
                ),
    {
        let mut out: Vec<MessageLine> = Vec::new();
        let n = self.messages.len();
        let mut i: usize = 0;
        while i < n
            invariant
                n == self.messages@.len(),
                i <= n,
                out@.len() == i,
                forall|k: int|
                    0 <= k < i ==> line_view(#[trigger] out@[k]) == line_of(
                        self.messages@[n - 1 - k],
                    ),
            decreases n - i,
        {
            out.push(message_line(&self.messages[n - 1 - i]));
            i = i + 1;
        }
        out
    }
}

} // verus!
