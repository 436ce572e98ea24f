//! The help popup: the keys and what the colours of the mini-sectors mean.
use vstd::prelude::*;

use crate::text::{self, concat, pad_left_string, to_owned_string};
use crate::tui::action::{Action, KeyInput};
use crate::tui::bottom_bar::SpanView;
use crate::tui::color::{
    self, overall_fastest, personal_fastest, TermColor, COLOR_ABORTED, COLOR_IN_PIT, COLOR_SLOWER,
};

verus! {

/// The help popup.
#[derive(Clone, Copy, Debug, PartialEq, Eq, Default)]
pub struct HelpPopup {
    pub visible: bool,
}

/// The width of the popup.
pub const POPUP_WIDTH: u16 = 45;

/// The glyph of a mini-sector.
pub const SEGMENT_GLYPH: &'static str = "▮";

impl HelpPopup {
    /// A key: `?` shows or hides the popup; escape hides it where it is
    /// shown. Either asks for a render; other keys do nothing.
    pub fn handle_key(&mut self, key: KeyInput) -> (r: Option<Action>)
        ensures
            key == KeyInput::Char('?') ==> final(self).visible == !old(self).visible && r == Some(
                Action::Render,
            ),
            key == KeyInput::Esc ==> !final(self).visible && r == if old(self).visible {
                Some(Action::Render)
            } else {
                None
            },
            key != KeyInput::Char('?') && key != KeyInput::Esc ==> *final(self) == *old(self)
                && r is None,
    {
        match key {
            KeyInput::Char('?') => {
                self.visible = !self.visible;
                Some(Action::Render)
            },
            KeyInput::Esc => {
                if self.visible {
                    self.visible = false;
                    Some(Action::Render)
                } else {
                    None
                }
            },
            _ => None,
        }
    }
}

/// The view of a span: text, colour, bold, dimmed.
pub open spec fn span(s: SpanView) -> (Seq<char>, TermColor, bool, bool) {
    (s.text@, s.color, s.bold, s.dim)
}

/// A line of the popup: the key (or glyph) part, a grey dash and the
/// description in white.
pub open spec fn help_line(lead: Seq<char>, lead_color: TermColor, lead_bold: bool, desc: Seq<char>) -> Seq<
    (Seq<char>, TermColor, bool, bool),
> {
    seq![(lead, lead_color, lead_bold, false), ("- "@, TermColor::DarkGray, false, false), (desc, TermColor::White, false, false)]
}

/// The line of a key: the key right-aligned in five columns, two spaces,
/// bold light red.
pub open spec fn key_line(key: Seq<char>, desc: Seq<char>) -> Seq<(Seq<char>, TermColor, bool, bool)> {
    help_line(text::pad_left(key, 5) + "  "@, TermColor::LightRed, true, desc)
}

/// The line of a colour: the glyph right-aligned in six columns, a space,
/// in that colour.
pub open spec fn color_line(c: TermColor, desc: Seq<char>) -> Seq<(Seq<char>, TermColor, bool, bool)> {
    help_line(text::pad_left("▮"@, 6) + " "@, c, false, desc)
}

/// The lines of the popup: the keys, an empty line, the colours.
pub open spec fn help_spec() -> Seq<Seq<(Seq<char>, TermColor, bool, bool)>> {
    seq![
        key_line("Q"@, "Quit"@),
        key_line("?"@, "Toggle Help"@),
        key_line("G"@, "Toggle Gap/Int"@),
        key_line("N"@, "Toggle Corner Numbers"@),
        key_line("←"@, "Increase Live Delay"@),
        key_line("→"@, "Decrease Live Delay"@),
        Seq::empty(),
        color_line(COLOR_SLOWER, "Slower"@),
        color_line(color::color_personal_fastest(), "Personal Fastest"@),
        color_line(color::color_overall_fastest(), "Overall Fastest"@),
        color_line(COLOR_IN_PIT, "In Pit"@),
        color_line(COLOR_ABORTED, "Aborted"@),
    ]
}

pub open spec fn lines_view(v: Seq<Vec<SpanView>>) -> Seq<Seq<(Seq<char>, TermColor, bool, bool)>> {
    v.map_values(|l: Vec<SpanView>| l@.map_values(|s: SpanView| span(s)))
}

fn spans_of(lead: String, lead_color: TermColor, lead_bold: bool, desc: &str) -> (r: Vec<SpanView>)
    ensures
        r@.map_values(|s: SpanView| span(s)) == help_line(lead@, lead_color, lead_bold, desc@),
{
    let mut r: Vec<SpanView> = Vec::new();
    r.push(SpanView { text: lead, color: lead_color, bold: lead_bold, dim: false });
    r.push(SpanView { text: to_owned_string("- "), color: TermColor::DarkGray, bold: false, dim: false });
    r.push(SpanView { text: to_owned_string(desc), color: TermColor::White, bold: false, dim: false });
    assert(r@.map_values(|s: SpanView| span(s)) =~= help_line(lead@, lead_color, lead_bold, desc@));
    r
}

fn key_spans(key: &str, desc: &str) -> (r: Vec<SpanView>)
    ensures
        r@.map_values(|s: SpanView| span(s)) == key_line(key@, desc@),
{
    let padded = pad_left_string(key, 5);
    spans_of(concat(padded.as_str(), "  "), TermColor::LightRed, true, desc)
}

fn color_spans(c: TermColor, desc: &str) -> (r: Vec<SpanView>)
    ensures
        r@.map_values(|s: SpanView| span(s)) == color_line(c, desc@),
{
    let padded = pad_left_string(SEGMENT_GLYPH, 6);
    spans_of(concat(padded.as_str(), " "), c, false, desc)
}

/// The lines of the help popup (see `help_spec`).
pub fn help_lines() -> (r: Vec<Vec<SpanView>>)
    ensures
        lines_view(r@) == help_spec(),
{
    let mut r: Vec<Vec<SpanView>> = Vec::new();
    r.push(key_spans("Q", "Quit"));
    r.push(key_spans("?", "Toggle Help"));
    r.push(key_spans("G", "Toggle Gap/Int"));
    r.push(key_spans("N", "Toggle Corner Numbers"));
    r.push(key_spans("←", "Increase Live Delay"));
    r.push(key_spans("→", "Decrease Live Delay"));
    r.push(Vec::new());
    r.push(color_spans(COLOR_SLOWER, "Slower"));
    r.push(color_spans(personal_fastest(), "Personal Fastest"));
    r.push(color_spans(overall_fastest(), "Overall Fastest"));
    r.push(color_spans(COLOR_IN_PIT, "In Pit"));
    r.push(color_spans(COLOR_ABORTED, "Aborted"));
    assert(lines_view(r@)[6] =~= Seq::<(Seq<char>, TermColor, bool, bool)>::empty());
    assert(lines_view(r@) =~= help_spec());
    r
}

/// The height of the popup: its lines and its two borders.
pub fn popup_height() -> (h: u16)
    ensures
        h == help_spec().len() + 2,
{
    14
}

} // verus!
