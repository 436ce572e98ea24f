//! The title bar: the grand prix, the session, the circuit, the track
//! status and the laps.
use vstd::prelude::*;

use crate::model::circuit::Circuit;
use crate::model::session_info::{QualiPhase, SessionInfo, SessionType};
use crate::model::status::{Clock, Laps, TrackStatus, Timestamp};
use crate::text::{self, concat, format_u64, str_contains, to_owned_string, to_uppercase};
use crate::time::{self, year_of};
use crate::tui::action::Action;
use crate::tui::color::TermColor;

verus! {

/// What the title bar shows (the weather, which it shows too, is the
/// application's).
#[derive(Clone, Debug, PartialEq, Eq, Default)]
pub struct TitleBar {
    pub grand_prix_name: String,
    pub session_name: String,
    pub circuit_name: String,
    pub country_name: String,
    pub start_date: Option<Timestamp>,
    pub track_status: Option<TrackStatus>,
    pub laps: Option<Laps>,
    pub clock: Option<Clock>,
}

/// The name of a kind of session.
pub open spec fn session_type_name(t: SessionType) -> Seq<char> {
    match t {
        SessionType::Practice => "Practice"@,
        SessionType::Qualifying(None) => "Qualifying"@,
        SessionType::Qualifying(Some(QualiPhase::Q1)) => "Qualifying (Q1)"@,
        SessionType::Qualifying(Some(QualiPhase::Q2)) => "Qualifying (Q2)"@,
        SessionType::Qualifying(Some(QualiPhase::Q3)) => "Qualifying (Q3)"@,
        SessionType::Race => "Race"@,
    }
}

/// The name of a kind of session.
pub fn session_type_text(t: SessionType) -> (s: String)
    ensures
        s@ == session_type_name(t),
{
    match t {
        SessionType::Practice => to_owned_string("Practice"),
        SessionType::Qualifying(None) => to_owned_string("Qualifying"),
        SessionType::Qualifying(Some(QualiPhase::Q1)) => to_owned_string("Qualifying (Q1)"),
        SessionType::Qualifying(Some(QualiPhase::Q2)) => to_owned_string("Qualifying (Q2)"),
        SessionType::Qualifying(Some(QualiPhase::Q3)) => to_owned_string("Qualifying (Q3)"),
        SessionType::Race => to_owned_string("Race"),
    }
}

/// The colour of a track status: green where it says `Clear`, yellow
/// where it says `Yellow` or `SC`, red where it says `Red`, else white.
pub open spec fn status_color_of(s: Seq<char>) -> TermColor {
    if text::contains_seq(s, "Clear"@) {
        TermColor::Green
    } else if text::contains_seq(s, "Yellow"@) || text::contains_seq(s, "SC"@) {
        TermColor::Yellow
    } else if text::contains_seq(s, "Red"@) {
        TermColor::Red
    } else {
        TermColor::White
    }
}

/// The track status text: its message, or `Unknown`.
pub open spec fn status_text_of(t: Option<TrackStatus>) -> Seq<char> {
    match t {
        Some(ts) => ts.message@,
        None => "Unknown"@,
    }
}

/// The view of a track status.
pub open spec fn track_view(t: Option<TrackStatus>) -> Option<(u8, Seq<char>)> {
    match t {
        Some(ts) => Some((ts.status, ts.message@)),
        None => None,
    }
}

fn copy_status(t: &TrackStatus) -> (r: TrackStatus)
    ensures
        track_view(Some(r)) == track_view(Some(*t)),
{
    TrackStatus { status: t.status, message: t.message.clone() }
}

impl TitleBar {
    /// Takes over the state: the session's names and start where there is
    /// a session, the circuit's name where there is a circuit, the track
    /// status as it is, and the laps and the clock where there are any.
    /// It always asks for a render, for the clock.
    pub fn update_data(
        &mut self,
        info: Option<&SessionInfo>,
        circuit: Option<&Circuit>,
        track_status: Option<&TrackStatus>,
        laps: Option<Laps>,
        clock: Option<Clock>,
    ) -> (r: Option<Action>)
        ensures
            r == Some(Action::Render),
            match info {
                Some(i) => final(self).grand_prix_name@ == i.meeting.name@
                    && final(self).session_name@ == session_type_name(i.type_)
                    && final(self).country_name@ == i.meeting.country.name@
                    && final(self).start_date == Some(i.start_date),
                None => final(self).grand_prix_name@ == old(self).grand_prix_name@
                    && final(self).session_name@ == old(self).session_name@
                    && final(self).country_name@ == old(self).country_name@
                    && final(self).start_date == old(self).start_date,
            },
            final(self).circuit_name@ == match circuit {
                Some(c) => c.short_name@,
                None => old(self).circuit_name@,
            },
            track_view(final(self).track_status) == match track_status {
                Some(t) => Some((t.status, t.message@)),
                None => None,
            },
            final(self).laps == match laps {
                Some(l) => Some(l),
                None => old(self).laps,
            },
            final(self).clock == match clock {
                Some(c) => Some(c),
                None => old(self).clock,
            },
    {
        if let Some(i) = info {
            self.grand_prix_name = i.meeting.name.clone();
            self.session_name = session_type_text(i.type_);
            self.country_name = i.meeting.country.name.clone();
            self.start_date = Some(i.start_date);
        }
        if let Some(c) = circuit {
            self.circuit_name = c.short_name.clone();
        }
        self.track_status = match track_status {
            Some(t) => Some(copy_status(t)),
            None => None,
        };
        if laps.is_some() {
            self.laps = laps;
        }
        if clock.is_some() {
            self.clock = clock;
        }
        Some(Action::Render)
    }

    /// The track status as shown: the message (or `Unknown`), uppercase.
    pub fn status_text(&self) -> (s: String)
        ensures
            s@ == text::uppercase(status_text_of(self.track_status)),
            text::is_ascii_text(status_text_of(self.track_status)) ==> s@ == text::ascii_uppercase(
                status_text_of(self.track_status),
            ),
    {
        match &self.track_status {
            Some(ts) => to_uppercase(ts.message.as_str()),
            None => to_uppercase("Unknown"),
        }
    }

    /// The colour of the track status (see `status_color_of`).
    pub fn status_color(&self) -> (c: TermColor)
        ensures
            c == status_color_of(status_text_of(self.track_status)),
    {
        let text = match &self.track_status {
            Some(ts) => ts.message.as_str(),
            None => "Unknown",
        };
        if str_contains(text, "Clear") {
            TermColor::Green
        } else if str_contains(text, "Yellow") || str_contains(text, "SC") {
            TermColor::Yellow
        } else if str_contains(text, "Red") {
            TermColor::Red
        } else {
            TermColor::White
        }
    }

    /// The title: the grand prix and the year of the session's start
    /// (nothing where there is none).
    pub fn title_text(&self) -> (s: String)
        ensures
            s@ == self.grand_prix_name@ + " "@ + match self.start_date {
                Some(t) => match time::utc_year(t.seconds, t.nanos) {
                    Some(y) => if y >= 0 {
                        text::decimal(y as nat)
                    } else {
                        seq!['-'] + text::decimal((-y) as nat)
                    },
                    None => Seq::empty(),
                },
                None => Seq::empty(),
            },
    {
        let year = match self.start_date {
            Some(t) => match year_of(t) {
                Some(y) => if y >= 0 {
                    format_u64(y as u64)
                } else {
                    let mut m = String::new();
                    text::push_char(&mut m, '-');
                    let digits = format_u64((-(y as i64)) as u64);
                    concat(m.as_str(), digits.as_str())
                },
                None => String::new(),
            },
            None => String::new(),
        };
        let head = concat(self.grand_prix_name.as_str(), " ");
        concat(head.as_str(), year.as_str())
    }

    /// The laps, `Lap current/total`, where there is a lap count.
    pub fn laps_text(&self) -> (r: Option<String>)
        ensures
            match self.laps {
                Some(l) => r matches Some(s) && s@ == "Lap "@ + text::decimal(l.current as nat)
                    + "/"@ + text::decimal(l.total as nat),
                None => r is None,
            },
    {
        match self.laps {
            Some(l) => {
                let a = concat("Lap ", format_u64(l.current as u64).as_str());
                let b = concat(a.as_str(), "/");
                Some(concat(b.as_str(), format_u64(l.total as u64).as_str()))
            },
            None => None,
        }
    }
}

/// The seconds left on the clock at `now` (seconds since the epoch):
/// while the clock runs, what was left when it was stated less the time
/// since, and never below zero; a stopped clock keeps its time.
pub open spec fn remaining_at(c: Clock, now: int) -> int {
    if c.extrapolating {
        let elapsed = if now > c.updated_at.seconds {
            now - c.updated_at.seconds
        } else {
            0
        };
        if elapsed >= c.time_remaining {
            0
        } else {
            c.time_remaining - elapsed
        }
    } else {
        c.time_remaining as int
    }
}

/// A number in at least two digits.
pub open spec fn two_or_more_digits(n: nat) -> Seq<char> {
    if n < 10 {
        "0"@ + text::decimal(n)
    } else {
        text::decimal(n)
    }
}

/// A count of seconds as `HH:MM:SS`, the hours in as many digits as they
/// need.
pub open spec fn hms_text(secs: nat) -> Seq<char> {
    two_or_more_digits(secs / 3600) + ":"@ + two_or_more_digits((secs % 3600) / 60) + ":"@
        + two_or_more_digits(secs % 60)
}

fn two_digits_text(n: u64) -> (s: String)
    ensures
        s@ == two_or_more_digits(n as nat),
{
    if n < 10 {
        concat("0", format_u64(n).as_str())
    } else {
        format_u64(n)
    }
}

/// The time left on the clock at `now`, as `HH:MM:SS` (see
/// `remaining_at`).
pub fn clock_text(c: &Clock, now: i64) -> (s: String)
    ensures
        s@ == hms_text(remaining_at(*c, now as int) as nat),
{
    let mut left: u64 = c.time_remaining;
    if c.extrapolating {
        let elapsed: u64 = if now > c.updated_at.seconds {
            (now as i128 - c.updated_at.seconds as i128) as u64
        } else {
            0
        };
        left = if elapsed >= left {
            0
        } else {
            left - elapsed
        };
    }
    let h = two_digits_text(left / 3600);
    let m = two_digits_text((left % 3600) / 60);
    let sec = two_digits_text(left % 60);
    let a = concat(h.as_str(), ":");
    let b = concat(a.as_str(), m.as_str());
    let d = concat(b.as_str(), ":");
    concat(d.as_str(), sec.as_str())
}

} // verus!
