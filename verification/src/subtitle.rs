//! Timed subtitle lines and which of them are on screen.

use crate::text::{sanitize_line, sanitized};
use vstd::prelude::*;

verus! {

/// A line as a subtitle file gives it: when it starts and ends, in signed
/// milliseconds, and its raw text, if it has any.
#[derive(Debug)]
pub struct TimedLine {
    pub start_ms: i64,
    pub end_ms: i64,
    pub line: Option<String>,
}

pub struct TimedLineView {
    pub start_ms: i64,
    pub end_ms: i64,
    pub line: Option<Seq<char>>,
}

impl View for TimedLine {
    type V = TimedLineView;

    open spec fn view(&self) -> TimedLineView {
        TimedLineView {
            start_ms: self.start_ms,
            end_ms: self.end_ms,
            line: match self.line {
                Some(text) => Some(text@),
                None => None,
            },
        }
    }
}

/// A line ready for display.
#[derive(Debug)]
pub struct Subtitle {
    pub start_time_ms: u128,
    pub end_time_ms: u128,
    pub text: String,
    /// The family name of the font the line is drawn in.
    pub font: String,
}

pub struct SubtitleView {
    pub start_time_ms: u128,
    pub end_time_ms: u128,
    pub text: Seq<char>,
    pub font: Seq<char>,
}

impl View for Subtitle {
    type V = SubtitleView;

    open spec fn view(&self) -> SubtitleView {
        SubtitleView {
            start_time_ms: self.start_time_ms,
            end_time_ms: self.end_time_ms,
            text: self.text@,
            font: self.font@,
        }
    }
}

/// A signed count of milliseconds taken as an unsigned one of 128 bits:
/// a negative count wraps round to the top of the range.
pub open spec fn unsigned_ms(t: i64) -> u128 {
    if t >= 0 {
        t as u128
    } else {
        (u128::MAX + 1 + t) as u128
    }
}

/// The text shown for a line that has none.
pub open spec fn missing_text() -> Seq<char> {
    "... [No Sub]"@
}

impl TimedLineView {
    /// The subtitle made from this line, drawn in `font`.
    pub open spec fn displayed_in(self, font: Seq<char>) -> SubtitleView {
        SubtitleView {
            start_time_ms: unsigned_ms(self.start_ms),
            end_time_ms: unsigned_ms(self.end_ms),
            text: match self.line {
                Some(text) => sanitized(text),
                None => missing_text(),
            },
            font,
        }
    }
}

impl SubtitleView {
    /// Whether the line is on screen at the playback time `playback_ms`:
    /// from its start to its end, both included.
    pub open spec fn active_at(self, playback_ms: u128) -> bool {
        self.start_time_ms <= playback_ms <= self.end_time_ms
    }

    pub open spec fn in_font(self, font: Seq<char>) -> SubtitleView {
        SubtitleView { font, ..self }
    }
}

fn to_unsigned_ms(t: i64) -> (r: u128)
    ensures
        r == unsigned_ms(t),
{
    if t >= 0 {
        t as u128
    } else {
        u128::MAX - ((-(t + 1)) as u128)
    }
}

impl Subtitle {
    pub fn _new(start_t: u128, end_t: u128, text: String, font: String) -> (sub: Subtitle)
        ensures
            sub@ == (SubtitleView {
                start_time_ms: start_t,
                end_time_ms: end_t,
                text: text@,
                font: font@,
            }),
    {
        Subtitle { start_time_ms: start_t, end_time_ms: end_t, text, font }
    }

    /// Makes the subtitle of a line of a subtitle file: the times become
    /// unsigned, the text is cleaned of tags, and a line without text gets
    /// a fixed one.
    pub fn from_entry(entry: &TimedLine, font: &str) -> (sub: Subtitle)
        ensures
            sub@ == entry@.displayed_in(font@),
    {
        let text = match &entry.line {
            Some(content) => sanitize_line(content.as_str()),
            None => "... [No Sub]".to_owned(),
        };
        Subtitle {
            start_time_ms: to_unsigned_ms(entry.start_ms),
            end_time_ms: to_unsigned_ms(entry.end_ms),
            text,
            font: font.to_owned(),
        }
    }

    /// The same line drawn in another font.
    pub fn with_font(&self, font: &str) -> (sub: Subtitle)
        ensures
            sub@ == self@.in_font(font@),
    {
        Subtitle {
            start_time_ms: self.start_time_ms,
            end_time_ms: self.end_time_ms,
            text: self.text.clone(),
            font: font.to_owned(),
        }
    }

    pub fn is_active_at(&self, playback_ms: u128) -> (active: bool)
        ensures
            active == self@.active_at(playback_ms),
    {
        playback_ms >= self.start_time_ms && playback_ms <= self.end_time_ms
    }
}

/// The views of a list of subtitles, in order.
pub open spec fn subtitle_views(subs: Seq<Subtitle>) -> Seq<SubtitleView> {
    subs.map_values(|s: Subtitle| s@)
}

/// The views of a list of lines, in order.
pub open spec fn line_views(lines: Seq<TimedLine>) -> Seq<TimedLineView> {
    lines.map_values(|l: TimedLine| l@)
}

/// The subtitles of the lines of a subtitle file, all drawn in `font`.
pub fn subtitles_from_entries(entries: &Vec<TimedLine>, font: &str) -> (subs: Vec<Subtitle>)
    ensures
        subtitle_views(subs@) == line_views(entries@).map_values(
            |l: TimedLineView| l.displayed_in(font@),
        ),
{
    let mut subs: Vec<Subtitle> = Vec::new();
    let mut i: usize = 0;
    while i < entries.len()
        invariant
            i <= entries.len(),
            subs@.len() == i,
            forall|j: int| 0 <= j < i ==> (#[trigger] subs@[j])@ == entries@[j]@.displayed_in(font@),
        decreases entries.len() - i,
    {
        subs.push(Subtitle::from_entry(&entries[i], font));
        i += 1;
    }
    assert(subtitle_views(subs@) =~= line_views(entries@).map_values(
        |l: TimedLineView| l.displayed_in(font@),
    ));
    subs
}

/// The same subtitles, all drawn in `font`.
pub fn subtitles_in_font(current: &Vec<Subtitle>, font: &str) -> (subs: Vec<Subtitle>)
    ensures
        subtitle_views(subs@) == subtitle_views(current@).map_values(
            |s: SubtitleView| s.in_font(font@),
        ),
{
    let mut subs: Vec<Subtitle> = Vec::new();
    let mut i: usize = 0;
    while i < current.len()
        invariant
            i <= current.len(),
            subs@.len() == i,
            forall|j: int| 0 <= j < i ==> (#[trigger] subs@[j])@ == current@[j]@.in_font(font@),
        decreases current.len() - i,
    {
        subs.push(current[i].with_font(font));
        i += 1;
    }
    assert(subtitle_views(subs@) =~= subtitle_views(current@).map_values(
        |s: SubtitleView| s.in_font(font@),
    ));
    subs
}

/// The positions of the subtitles that are on screen at `playback_ms`, in
/// rising order.
pub open spec fn active_positions(subs: Seq<SubtitleView>, playback_ms: u128) -> Seq<usize>
    decreases subs.len(),
{
    if subs.len() == 0 {
        Seq::empty()
    } else if subs.last().active_at(playback_ms) {
        active_positions(subs.drop_last(), playback_ms).push((subs.len() - 1) as usize)
    } else {
        active_positions(subs.drop_last(), playback_ms)
    }
}

/// The positions of the subtitles that are on screen at `playback_ms`, in
/// rising order.
pub fn active_subtitles(subs: &Vec<Subtitle>, playback_ms: u128) -> (shown: Vec<usize>)
    ensures
        shown@ == active_positions(subtitle_views(subs@), playback_ms),
{
    let ghost views = subtitle_views(subs@);
    let mut shown: Vec<usize> = Vec::new();
    let mut i: usize = 0;
    assert(views.take(0) =~= Seq::empty());
    while i < subs.len()
        invariant
            i <= subs.len(),
            views == subtitle_views(subs@),
            shown@ == active_positions(views.take(i as int), playback_ms),
        decreases subs.len() - i,
    {
        proof {
            assert(views.take(i + 1).drop_last() =~= views.take(i as int));
            assert(views.take(i + 1).last() == subs@[i as int]@);
        }
        if subs[i].is_active_at(playback_ms) {
            shown.push(i);
        }
        i += 1;
    }
    assert(views.take(subs.len() as int) =~= views);
    shown
}

/// The listed positions are exactly those of the subtitles on screen, each
/// once and in rising order.
pub proof fn lemma_active_positions(subs: Seq<SubtitleView>, playback_ms: u128)
    requires
        subs.len() <= usize::MAX,
    ensures
        forall|k: int|
            0 <= k < active_positions(subs, playback_ms).len() ==> {
                &&& (#[trigger] active_positions(subs, playback_ms)[k]) < subs.len()
                &&& subs[active_positions(subs, playback_ms)[k] as int].active_at(playback_ms)
            },
        forall|k: int, l: int|
            0 <= k < l < active_positions(subs, playback_ms).len() ==> active_positions(
                subs,
                playback_ms,
            )[k] < active_positions(subs, playback_ms)[l],
        forall|j: int|
            0 <= j < subs.len() && (#[trigger] subs[j]).active_at(playback_ms)
                ==> active_positions(subs, playback_ms).contains(j as usize),
    decreases subs.len(),
{
    if subs.len() > 0 {
        let before = active_positions(subs.drop_last(), playback_ms);
        let all = active_positions(subs, playback_ms);
        lemma_active_positions(subs.drop_last(), playback_ms);
        assert forall|j: int|
            0 <= j < subs.len() && (#[trigger] subs[j]).active_at(
                playback_ms,
            ) implies all.contains(j as usize) by {
            if j < subs.len() - 1 {
                assert(subs.drop_last()[j] == subs[j]);
                assert(before.contains(j as usize));
                let k = choose|k: int| 0 <= k < before.len() && before[k] == j as usize;
                assert(all[k] == j as usize);
            } else {
                assert(all[all.len() - 1] == j as usize);
            }
        }
        assert forall|k: int| 0 <= k < all.len() implies {
            &&& (#[trigger] all[k]) < subs.len()
            &&& subs[all[k] as int].active_at(playback_ms)
        } by {
            if k < before.len() {
                assert(all[k] == before[k]);
                assert(subs.drop_last()[before[k] as int] == subs[before[k] as int]);
            }
        }
        assert forall|k: int, l: int| 0 <= k < l < all.len() implies all[k] < all[l] by {
            assert(all[k] == before[k]);
            if l < before.len() {
                assert(all[l] == before[l]);
            }
        }
    }
}

} // verus!
