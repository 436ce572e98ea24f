//! Lap times, written `M:SS.mmm`.
use vstd::prelude::*;

use crate::text::{
    self, chars_of, decimal_chars, parse_unsigned_chars, split_chars, string_from_chars,
};
verus! {

/// A lap time.
#[derive(Clone, Copy, PartialEq, Eq, Debug, Default, PartialOrd, Ord, Hash)]
pub struct LapTime {
    pub minutes: u32,
    pub seconds: u32,
    pub milliseconds: u32,
}

/// Whether `s` is exactly `n` decimal digits.
pub open spec fn fixed_digits(s: Seq<char>, n: nat) -> bool {
    s.len() == n && text::all_digits(s)
}

/// The lap time that `s` writes, if it is `M:SS.mmm`: minutes as an `u32`,
/// then exactly two digits of seconds below 60, then exactly three digits of
/// milliseconds.
pub open spec fn parse_lap_time(s: Seq<char>) -> Option<LapTime> {
    let parts = text::split_spec(s, ':');
    if parts.len() != 2 {
        None
    } else {
        let rest = text::split_spec(parts[1], '.');
        match text::parse_unsigned(parts[0], u32::MAX as nat) {
            Some(m) => if rest.len() == 2 && fixed_digits(rest[0], 2) && text::digits_value(rest[0])
                < 60 && fixed_digits(rest[1], 3) {
                Some(
                    LapTime {
                        minutes: m as u32,
                        seconds: text::digits_value(rest[0]) as u32,
                        milliseconds: text::digits_value(rest[1]) as u32,
                    },
                )
            } else {
                None
            },
            None => None,
        }
    }
}

/// `n` written with exactly `width` digits (the `{:0width}` format of a value below `10^width`).
pub open spec fn zero_padded(n: nat, width: nat) -> Seq<char> {
    let d = text::decimal(n);
    if d.len() >= width {
        d
    } else {
        Seq::new((width - d.len()) as nat, |i: int| '0') + d
    }
}

/// How a lap time is written: `{minutes}:{seconds:02}.{milliseconds:03}`.
pub open spec fn format_lap_time(t: LapTime) -> Seq<char> {
    text::decimal(t.minutes as nat) + seq![':'] + zero_padded(t.seconds as nat, 2) + seq!['.']
        + zero_padded(t.milliseconds as nat, 3)
}

/// Whether lap time `a` is strictly shorter than `b`.
pub open spec fn lap_time_lt(a: LapTime, b: LapTime) -> bool {
    a.minutes < b.minutes || (a.minutes == b.minutes && (a.seconds < b.seconds || (a.seconds
        == b.seconds && a.milliseconds < b.milliseconds)))
}

fn zero_padded_chars(n: u32, width: usize) -> (r: Vec<char>)
    requires
        width <= 10,
    ensures
        r@ == zero_padded(n as nat, width as nat),
{
    let d = decimal_chars(n as u64);
    if d.len() >= width {
        return d;
    }
    let pad = width - d.len();
    let mut out: Vec<char> = Vec::new();
    let mut i: usize = 0;
    while i < pad
        invariant
            i <= pad,
            out@ == Seq::new(i as nat, |k: int| '0'),
        decreases pad - i,
    {
        out.push('0');
        i = i + 1;
        assert(out@ =~= Seq::new(i as nat, |k: int| '0'));
    }
    let mut j: usize = 0;
    while j < d.len()
        invariant
            j <= d.len(),
            out@ == Seq::new(pad as nat, |k: int| '0') + d@.take(j as int),
        decreases d.len() - j,
    {
        out.push(d[j]);
        j = j + 1;
        assert(out@ =~= Seq::new(pad as nat, |k: int| '0') + d@.take(j as int));
    }
    assert(d@.take(d.len() as int) =~= d@);
    out
}

fn append_chars(out: &mut Vec<char>, more: &Vec<char>)
    ensures
        final(out)@ == old(out)@ + more@,
{
    let ghost start = out@;
    let mut i: usize = 0;
    while i < more.len()
        invariant
            i <= more.len(),
            out@ == start + more@.take(i as int),
        decreases more.len() - i,
    {
        out.push(more[i]);
        i = i + 1;
        assert(out@ =~= start + more@.take(i as int));
    }
    assert(more@.take(more.len() as int) =~= more@);
}

impl LapTime {
    /// A lap time of `minutes`, `seconds` and `milliseconds`.
    pub fn new(minutes: u32, seconds: u32, milliseconds: u32) -> (t: LapTime)
        ensures
            t == (LapTime { minutes, seconds, milliseconds }),
    {
        LapTime { minutes, seconds, milliseconds }
    }

    /// Reads a lap time written `M:SS.mmm`.
    pub fn parse(s: &str) -> (r: Option<LapTime>)
        ensures
            r == parse_lap_time(s@),
    {
        let cs = chars_of(s);
        let parts = split_chars(&cs, ':');
        if parts.len() != 2 {
            return None;
        }
        let rest = split_chars(&parts[1], '.');
        let minutes = match parse_unsigned_chars(&parts[0], u32::MAX as u64) {
            Some(m) => m as u32,
            None => {
                return None;
            },
        };
        if rest.len() != 2 {
            return None;
        }
        let secs = fixed_digits_value(&rest[0], 2);
        let millis = fixed_digits_value(&rest[1], 3);
        match (secs, millis) {
            (Some(sv), Some(mv)) => {
                if sv < 60 {
                    Some(LapTime { minutes, seconds: sv, milliseconds: mv })
                } else {
                    None
                }
            },
            _ => None,
        }
    }

    /// The lap time written `M:SS.mmm`.
    pub fn to_string(&self) -> (s: String)
        ensures
            s@ == format_lap_time(*self),
    {
        let mut out = decimal_chars(self.minutes as u64);
        out.push(':');
        let secs = zero_padded_chars(self.seconds, 2);
        append_chars(&mut out, &secs);
        out.push('.');
        let millis = zero_padded_chars(self.milliseconds, 3);
        append_chars(&mut out, &millis);
        string_from_chars(&out)
    }

    /// Whether this lap time is strictly shorter than `other`.
    pub fn lt(&self, other: &LapTime) -> (r: bool)
        ensures
            r == lap_time_lt(*self, *other),
    {
        self.minutes < other.minutes || (self.minutes == other.minutes && (self.seconds
            < other.seconds || (self.seconds == other.seconds && self.milliseconds
            < other.milliseconds)))
    }

    /// Whether this lap time equals `other`.
    pub fn same(&self, other: &LapTime) -> (r: bool)
        ensures
            r == (*self == *other),
    {
        self.minutes == other.minutes && self.seconds == other.seconds && self.milliseconds
            == other.milliseconds
    }
}

/// The value of `s` when it is exactly `n` decimal digits.
fn fixed_digits_value(s: &Vec<char>, n: usize) -> (r: Option<u32>)
    requires
        1 <= n <= 3,
    ensures
        match r {
            Some(v) => fixed_digits(s@, n as nat) && v == text::digits_value(s@),
            None => !fixed_digits(s@, n as nat),
        },
{
    if s.len() != n {
        return None;
    }
    let mut acc: u32 = 0;
    let mut i: usize = 0;
    while i < n
        invariant
            s.len() == n,
            1 <= n <= 3,
            i <= n,
            text::all_digits(s@.take(i as int)),
            acc == text::digits_value(s@.take(i as int)),
            i == 0 ==> acc == 0,
            i == 1 ==> acc <= 9,
            i == 2 ==> acc <= 99,
            i == 3 ==> acc <= 999,
        decreases n - i,
    {
        let c = s[i];
        if !('0' <= c && c <= '9') {
            assert(!text::all_digits(s@)) by {
                assert(!text::is_digit(s@[i as int]));
            }
            return None;
        }
        assert(s@.take(i + 1).drop_last() =~= s@.take(i as int));
        acc = acc * 10 + (c as u32 - '0' as u32);
        i = i + 1;
        assert forall|k: int| 0 <= k < i implies text::is_digit(#[trigger] s@.take(i as int)[k]) by {
            if k < i - 1 {
                assert(s@.take(i as int)[k] == s@.take(i - 1)[k]);
            }
        }
    }
    assert(s@.take(n as int) =~= s@);
    Some(acc)
}

} // verus!

verus! {

proof fn lemma_zero_prefix_value(k: nat, d: Seq<char>)
    ensures
        text::digits_value(Seq::new(k, |i: int| '0') + d) == text::digits_value(d),
    decreases d.len(), k,
{
    let z = Seq::new(k, |i: int| '0');
    if d.len() > 0 {
        lemma_zero_prefix_value(k, d.drop_last());
        assert((z + d).drop_last() =~= z + d.drop_last());
        assert((z + d).last() == d.last());
    } else if k > 0 {
        let z1 = Seq::new((k - 1) as nat, |i: int| '0');
        lemma_zero_prefix_value((k - 1) as nat, d);
        assert((z + d).drop_last() =~= z1 + d);
        assert((z + d).last() == '0');
    } else {
        assert(z + d =~= d);
    }
}

proof fn lemma_zero_padded(n: nat, width: nat)
    requires
        1 <= width <= 3,
        width == 2 ==> n < 100,
        width == 3 ==> n < 1000,
        width == 1 ==> n < 10,
    ensures
        fixed_digits(zero_padded(n, width), width),
        text::digits_value(zero_padded(n, width)) == n,
        !zero_padded(n, width).contains(':'),
        !zero_padded(n, width).contains('.'),
{
    text::lemma_decimal_digits(n);
    let d = text::decimal(n);
    assert(d.len() <= width) by {
        if n >= 10 {
            assert(d.len() == text::decimal(n / 10).len() + 1);
            if n / 10 >= 10 {
                assert(text::decimal(n / 10).len() == text::decimal(n / 100).len() + 1);
                assert(n / 100 < 10);
            }
        }
    }
    let z = Seq::new((width - d.len()) as nat, |i: int| '0');
    let r = zero_padded(n, width);
    if d.len() < width {
        assert(r == z + d);
        lemma_zero_prefix_value((width - d.len()) as nat, d);
        assert forall|i: int| 0 <= i < r.len() implies text::is_digit(#[trigger] r[i]) by {
            if i >= z.len() {
                assert(r[i] == d[i - z.len()]);
            }
        }
    }
    assert forall|i: int| 0 <= i < r.len() implies r[i] != ':' && r[i] != '.' by {
        assert(text::is_digit(r[i]));
    }
}

proof fn lemma_decimal_no_sep(n: nat)
    ensures
        !text::decimal(n).contains(':'),
        !text::decimal(n).contains('.'),
{
    text::lemma_decimal_digits(n);
    assert forall|i: int| 0 <= i < text::decimal(n).len() implies text::decimal(n)[i] != ':' && text::decimal(n)[i]
        != '.' by {
        assert(text::is_digit(text::decimal(n)[i]));
    }
}

/// Reading back a written lap time gives the lap time: for seconds below 60
/// and milliseconds below 1000, parsing undoes formatting.
pub proof fn lemma_lap_time_roundtrip(t: LapTime)
    requires
        t.seconds < 60,
        t.milliseconds < 1000,
    ensures
        parse_lap_time(format_lap_time(t)) == Some(t),
{
    let d = text::decimal(t.minutes as nat);
    let sec = zero_padded(t.seconds as nat, 2);
    let ms = zero_padded(t.milliseconds as nat, 3);
    lemma_decimal_no_sep(t.minutes as nat);
    lemma_zero_padded(t.seconds as nat, 2);
    lemma_zero_padded(t.milliseconds as nat, 3);
    let tail = sec + seq!['.'] + ms;
    assert(format_lap_time(t) =~= d + seq![':'] + tail);
    text::lemma_split_concat(d, tail, ':');
    assert(!tail.contains(':')) by {
        assert forall|i: int| 0 <= i < tail.len() implies tail[i] != ':' by {
            if i < sec.len() {
                assert(tail[i] == sec[i]);
            } else if i > sec.len() {
                assert(tail[i] == ms[i - sec.len() - 1]);
            }
        }
    }
    text::lemma_split_no_sep(tail, ':');
    assert(text::split_spec(format_lap_time(t), ':') =~= seq![d, tail]);
    text::lemma_split_concat(sec, ms, '.');
    text::lemma_split_no_sep(ms, '.');
    assert(text::split_spec(tail, '.') =~= seq![sec, ms]);
    text::lemma_parse_decimal_roundtrip(t.minutes as nat, u32::MAX as nat);
}

} // verus!
