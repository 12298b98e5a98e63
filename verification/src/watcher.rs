//! The state of the overlay and how each event changes it.

use crate::clock::{PlaybackState, SEEK_STEP_MS};
use crate::subtitle::{
    active_positions, active_subtitles, line_views, subtitle_views, subtitles_from_entries,
    subtitles_in_font, Subtitle, SubtitleView, TimedLine, TimedLineView,
};
use crate::timing::{format_ms, formatted_ms, parse_ms, parsed_ms};
use vstd::prelude::*;

verus! {

/// The largest font size that the size controls reach.
pub const MAX_FONT_SIZE: u16 = 99;

/// The smallest font size that the size controls reach.
pub const MIN_FONT_SIZE: u16 = 1;

#[derive(Clone, Copy, Debug, PartialEq, Eq, Structural)]
pub enum Tab {
    Main,
    Settings,
}

/// What happened: a control was used, a key was pressed, the timer fired,
/// or a subtitle file was read.
#[derive(Debug)]
pub enum Message {
    Tick,
    PlayButtonPressed,
    PauseButtonPressed,
    ResetTimeHeadPressed,
    PlaybackTimeEdited(String),
    OffsetEdited(String),
    LoadFileButtonPressed,
    /// The lines of the file that was picked after `LoadFileButtonPressed`.
    SubtitlesLoaded(Vec<TimedLine>),
    TabPressed,
    ToggleTransparency,
    KeySpacePressed,
    IncreaseFontSize,
    DecreaseFontSize,
    SubFontChanged(String),
    ReverseBackPressed,
    FastForwardPressed,
}

/// What the caller is to do after an event was handled.
#[derive(Clone, Copy, Debug, PartialEq, Eq, Structural)]
pub enum Command {
    Nothing,
    /// Hand in `Message::PlayButtonPressed`.
    SendPlay,
    /// Hand in `Message::PauseButtonPressed`.
    SendPause,
    /// Let the user pick a subtitle file, read it, and hand its lines in
    /// as `Message::SubtitlesLoaded`; hand in nothing where that fails.
    PickFile,
}

#[derive(Debug)]
pub struct Watcher {
    pub clock: PlaybackState,
    pub offset_str: String,
    pub playback_time_str: String,
    pub active_subtitles: Vec<Subtitle>,
    pub tab: Tab,
    pub transparent: bool,
    pub font_size: u16,
    pub available_font: Vec<String>,
    pub active_sub_font: String,
}

pub struct WatcherView {
    pub clock: PlaybackState,
    pub offset_str: Seq<char>,
    pub playback_time_str: Seq<char>,
    pub active_subtitles: Seq<SubtitleView>,
    pub tab: Tab,
    pub transparent: bool,
    pub font_size: u16,
    pub available_font: Seq<Seq<char>>,
    pub active_sub_font: Seq<char>,
}

impl View for Watcher {
    type V = WatcherView;

    open spec fn view(&self) -> WatcherView {
        WatcherView {
            clock: self.clock,
            offset_str: self.offset_str@,
            playback_time_str: self.playback_time_str@,
            active_subtitles: subtitle_views(self.active_subtitles@),
            tab: self.tab,
            transparent: self.transparent,
            font_size: self.font_size,
            available_font: self.available_font@.map_values(|name: String| name@),
            active_sub_font: self.active_sub_font@,
        }
    }
}

pub open spec fn font_size_raised(size: u16) -> u16 {
    if size < MAX_FONT_SIZE {
        (size + 1) as u16
    } else if size == u16::MAX {
        (size - 1) as u16
    } else {
        size
    }
}

pub open spec fn font_size_lowered(size: u16) -> u16 {
    if size <= MIN_FONT_SIZE {
        MIN_FONT_SIZE
    } else {
        (size - 1) as u16
    }
}

impl WatcherView {
    pub open spec fn initial(fonts: Seq<Seq<char>>) -> WatcherView {
        WatcherView {
            clock: PlaybackState::initial(),
            offset_str: "00:00:00:000"@,
            playback_time_str: "00:00:00:000"@,
            active_subtitles: Seq::empty(),
            tab: Tab::Main,
            transparent: false,
            font_size: 48,
            available_font: fonts,
            active_sub_font: Seq::empty(),
        }
    }

    /// What holds of every state that events lead to: the font size is within
    /// its limits, every subtitle is drawn in the chosen font, the offset
    /// field reads as the offset, and the time field reads as the playback
    /// time, with or without the offset.
    pub open spec fn wf(self) -> bool {
        &&& MIN_FONT_SIZE <= self.font_size <= MAX_FONT_SIZE
        &&& forall|i: int|
            0 <= i < self.active_subtitles.len() ==> (#[trigger] self.active_subtitles[i]).font
                == self.active_sub_font
        &&& parsed_ms(self.offset_str) == Some(self.clock.offset_ms)
        &&& (parsed_ms(self.playback_time_str) == Some(self.clock.playback_time_ms) || parsed_ms(
            self.playback_time_str,
        ) == Some(self.clock.displayed_ms()))
    }

    /// The state with another clock and the time field showing what that
    /// clock displays.
    pub open spec fn showing(self, clock: PlaybackState) -> WatcherView {
        WatcherView { clock, playback_time_str: formatted_ms(clock.displayed_ms()), ..self }
    }

    /// A tick of the timer. It counts only while playing.
    pub open spec fn ticked(self, now_ms: u128) -> WatcherView {
        if self.clock.playing {
            self.showing(self.clock.ticked(now_ms))
        } else {
            self
        }
    }

    pub open spec fn played(self, now_ms: u128) -> WatcherView {
        WatcherView { clock: self.clock.played(now_ms), ..self }
    }

    pub open spec fn paused(self) -> WatcherView {
        WatcherView { clock: self.clock.paused(), ..self }
    }

    pub open spec fn adjusted(self, delta_ms: i64) -> WatcherView {
        self.showing(self.clock.adjusted(delta_ms))
    }

    pub open spec fn rewound(self) -> WatcherView {
        self.showing(self.clock.rewound())
    }

    /// An edit of the seek field. It takes effect only while paused and only
    /// where the text reads as a time; the field then keeps the text as typed.
    pub open spec fn seek_edited(self, text: Seq<char>) -> WatcherView {
        match parsed_ms(text) {
            Some(ms) if !self.clock.playing => WatcherView {
                clock: self.clock.sought(ms),
                playback_time_str: text,
                ..self
            },
            _ => self,
        }
    }

    /// An edit of the offset field. It takes effect only while paused and
    /// only where the text reads as a time.
    pub open spec fn offset_edited(self, text: Seq<char>) -> WatcherView {
        match parsed_ms(text) {
            Some(ms) if !self.clock.playing => WatcherView {
                offset_str: text,
                ..self.showing(self.clock.with_offset(ms))
            },
            _ => self,
        }
    }

    pub open spec fn tab_switched(self) -> WatcherView {
        WatcherView {
            tab: match self.tab {
                Tab::Main => Tab::Settings,
                Tab::Settings => Tab::Main,
            },
            ..self
        }
    }

    pub open spec fn transparency_toggled(self) -> WatcherView {
        WatcherView { transparent: !self.transparent, ..self }
    }

    pub open spec fn font_changed(self, font: Seq<char>) -> WatcherView {
        WatcherView {
            active_sub_font: font,
            active_subtitles: self.active_subtitles.map_values(|s: SubtitleView| s.in_font(font)),
            ..self
        }
    }

    pub open spec fn loaded(self, lines: Seq<TimedLineView>) -> WatcherView {
        WatcherView {
            active_subtitles: lines.map_values(
                |l: TimedLineView| l.displayed_in(self.active_sub_font),
            ),
            ..self
        }
    }

    pub open spec fn font_size_changed(self, font_size: u16) -> WatcherView {
        WatcherView { font_size, ..self }
    }

    /// The state after `message` arrived at the wall-clock reading `now_ms`.
    pub open spec fn after(self, message: Message, now_ms: u128) -> WatcherView {
        match message {
            Message::Tick => self.ticked(now_ms),
            Message::PlayButtonPressed => self.played(now_ms),
            Message::PauseButtonPressed => self.paused(),
            Message::ResetTimeHeadPressed => self.rewound(),
            Message::PlaybackTimeEdited(text) => self.seek_edited(text@),
            Message::OffsetEdited(text) => self.offset_edited(text@),
            Message::LoadFileButtonPressed => self,
            Message::SubtitlesLoaded(lines) => self.loaded(line_views(lines@)),
            Message::TabPressed => self.tab_switched(),
            Message::ToggleTransparency => self.transparency_toggled(),
            Message::KeySpacePressed => self,
            Message::IncreaseFontSize => self.font_size_changed(font_size_raised(self.font_size)),
            Message::DecreaseFontSize => self.font_size_changed(font_size_lowered(self.font_size)),
            Message::SubFontChanged(font) => self.font_changed(font@),
            Message::ReverseBackPressed => self.adjusted((-SEEK_STEP_MS) as i64),
            Message::FastForwardPressed => self.adjusted(SEEK_STEP_MS),
        }
    }

    /// What the caller is asked to do after `message`.
    pub open spec fn command_for(self, message: Message) -> Command {
        match message {
            Message::KeySpacePressed => if self.clock.playing {
                Command::SendPause
            } else {
                Command::SendPlay
            },
            Message::LoadFileButtonPressed => Command::PickFile,
            _ => Command::Nothing,
        }
    }
}

impl Watcher {
    /// The state at start: paused at zero, no offset, no subtitles, the main
    /// tab, opaque, font size 48, and the font families that were found.
    pub fn new(available_font: Vec<String>) -> (state: Watcher)
        ensures
            state@ == WatcherView::initial(available_font@.map_values(|name: String| name@)),
            state@.wf(),
    {
        proof {
            lemma_initial_wf(available_font@.map_values(|name: String| name@));
        }
        let state = Watcher {
            clock: PlaybackState::new(),
            offset_str: "00:00:00:000".to_owned(),
            playback_time_str: "00:00:00:000".to_owned(),
            active_subtitles: Vec::new(),
            tab: Tab::Main,
            transparent: false,
            font_size: 48,
            available_font,
            active_sub_font: String::new(),
        };
        assert(state@.active_subtitles =~= Seq::empty());
        state
    }

    /// The positions of the subtitles to draw: those on screen at the
    /// playback time. The offset does not count here.
    pub fn on_screen(&self) -> (shown: Vec<usize>)
        ensures
            shown@ == active_positions(self@.active_subtitles, self.clock.playback_time_ms),
    {
        active_subtitles(&self.active_subtitles, self.clock.playback_time_ms)
    }

    /// Writes into the time field what the clock displays.
    fn show_time(&mut self)
        ensures
            final(self)@ == old(self)@.showing(old(self).clock),
    {
        self.playback_time_str = format_ms(self.clock.current_time_ms());
    }

    /// Handles one event that arrived at the wall-clock reading `now_ms`
    /// and says what the caller is to do next.
    pub fn update(&mut self, message: Message, now_ms: u128) -> (command: Command)
        ensures
            final(self)@ == old(self)@.after(message, now_ms),
            command == old(self)@.command_for(message),
            old(self)@.wf() ==> final(self)@.wf(),
    {
        proof {
            if self@.wf() {
                lemma_update_keeps_wf(self@, message, now_ms);
            }
        }
        match message {
            Message::Tick => {
                if self.clock.playing {
                    self.clock.tick(now_ms);
                    self.show_time();
                }
                Command::Nothing
            },
            Message::TabPressed => {
                match self.tab {
                    Tab::Main => self.tab = Tab::Settings,
                    Tab::Settings => self.tab = Tab::Main,
                }
                Command::Nothing
            },
            Message::ToggleTransparency => {
                self.transparent = !self.transparent;
                Command::Nothing
            },
            Message::KeySpacePressed => {
                if self.clock.playing {
                    Command::SendPause
                } else {
                    Command::SendPlay
                }
            },
            Message::SubFontChanged(font_string) => {
                self.active_subtitles = subtitles_in_font(
                    &self.active_subtitles,
                    font_string.as_str(),
                );
                self.active_sub_font = font_string;
                Command::Nothing
            },
            Message::PlayButtonPressed => {
                self.clock.play(now_ms);
                Command::Nothing
            },
            Message::PauseButtonPressed => {
                self.clock.pause();
                Command::Nothing
            },
            Message::FastForwardPressed => {
                self.clock.adjust(SEEK_STEP_MS);
                self.show_time();
                Command::Nothing
            },
            Message::ReverseBackPressed => {
                self.clock.adjust(-SEEK_STEP_MS);
                self.show_time();
                Command::Nothing
            },
            Message::ResetTimeHeadPressed => {
                self.clock.reset();
                self.show_time();
                Command::Nothing
            },
            Message::IncreaseFontSize => {
                self.font_size = self.font_size.saturating_add(1);
                if self.font_size > MAX_FONT_SIZE {
                    self.font_size -= 1;
                }
                Command::Nothing
            },
            Message::DecreaseFontSize => {
                self.font_size = self.font_size.saturating_sub(1);
                if self.font_size < MIN_FONT_SIZE {
                    self.font_size += 1;
                }
                Command::Nothing
            },
            Message::OffsetEdited(time_content) => {
                if !self.clock.playing {
                    if let Some(ms) = parse_ms(time_content.as_str()) {
                        self.clock.set_offset(ms);
                        self.offset_str = time_content;
                        self.show_time();
                    }
                }
                Command::Nothing
            },
            Message::PlaybackTimeEdited(time_content) => {
                if !self.clock.playing {
                    if let Some(ms) = parse_ms(time_content.as_str()) {
                        self.clock.seek(ms);
                        self.playback_time_str = time_content;
                    }
                }
                Command::Nothing
            },
            Message::LoadFileButtonPressed => Command::PickFile,
            Message::SubtitlesLoaded(lines) => {
                self.active_subtitles = subtitles_from_entries(
                    &lines,
                    self.active_sub_font.as_str(),
                );
                Command::Nothing
            },
        }
    }
}

/// An edit of the seek field changes nothing while playing. While paused,
/// a text that reads as a time sets the playback time to exactly that time
/// and leaves offset and play state alone.
pub proof fn lemma_seek_edit(state: WatcherView, text: Seq<char>)
    ensures
        state.clock.playing ==> state.seek_edited(text) == state,
        parsed_ms(text) is None ==> state.seek_edited(text) == state,
        !state.clock.playing && parsed_ms(text) is Some ==> {
            &&& state.seek_edited(text).clock.playback_time_ms == parsed_ms(text)->0
            &&& state.seek_edited(text).clock.offset_ms == state.clock.offset_ms
            &&& !state.seek_edited(text).clock.playing
        },
{
}

/// After a tick while playing, a step forwards or backwards, a reset and an
/// accepted edit of the offset, the time field shows playback time plus
/// offset.
pub proof fn lemma_time_field_follows_clock(
    state: WatcherView,
    now_ms: u128,
    delta_ms: i64,
    text: Seq<char>,
)
    ensures
        state.clock.playing ==> state.ticked(now_ms).playback_time_str == formatted_ms(
            state.ticked(now_ms).clock.displayed_ms(),
        ),
        state.adjusted(delta_ms).playback_time_str == formatted_ms(
            state.adjusted(delta_ms).clock.displayed_ms(),
        ),
        state.rewound().playback_time_str == formatted_ms(state.clock.offset_ms),
        !state.clock.playing && parsed_ms(text) is Some ==> state.offset_edited(
            text,
        ).playback_time_str == formatted_ms(state.offset_edited(text).clock.displayed_ms()),
{
}

/// The state at start is well formed, and its time field shows the text
/// form of zero.
pub proof fn lemma_initial_wf(fonts: Seq<Seq<char>>)
    ensures
        WatcherView::initial(fonts).wf(),
        WatcherView::initial(fonts).playback_time_str == formatted_ms(0),
{
    crate::timing::lemma_format_zero();
    crate::timing::lemma_format_parse_round_trip(0);
}

/// Showing what a clock with the same offset displays keeps a state well
/// formed.
proof fn lemma_showing_keeps_wf(state: WatcherView, clock: PlaybackState)
    requires
        state.wf(),
        clock.offset_ms == state.clock.offset_ms,
    ensures
        state.showing(clock).wf(),
{
    crate::timing::lemma_format_parse_round_trip(clock.displayed_ms());
}

/// An edit of a time field keeps a state well formed.
proof fn lemma_edits_keep_wf(state: WatcherView, text: Seq<char>)
    requires
        state.wf(),
    ensures
        state.seek_edited(text).wf(),
        state.offset_edited(text).wf(),
{
    if !state.clock.playing && parsed_ms(text) is Some {
        let ms = parsed_ms(text)->0;
        let clock = state.clock.with_offset(ms);
        crate::timing::lemma_format_parse_round_trip(clock.displayed_ms());
    }
}

/// Every event leads from a well-formed state to a well-formed state.
pub proof fn lemma_update_keeps_wf(state: WatcherView, message: Message, now_ms: u128)
    requires
        state.wf(),
    ensures
        state.after(message, now_ms).wf(),
{
    match message {
        Message::Tick => {
            lemma_showing_keeps_wf(state, state.clock.ticked(now_ms));
        },
        Message::ResetTimeHeadPressed => {
            lemma_showing_keeps_wf(state, state.clock.rewound());
        },
        Message::ReverseBackPressed => {
            lemma_showing_keeps_wf(state, state.clock.adjusted((-SEEK_STEP_MS) as i64));
        },
        Message::FastForwardPressed => {
            lemma_showing_keeps_wf(state, state.clock.adjusted(SEEK_STEP_MS));
        },
        Message::PlaybackTimeEdited(text) => {
            lemma_edits_keep_wf(state, text@);
        },
        Message::OffsetEdited(text) => {
            lemma_edits_keep_wf(state, text@);
        },
        _ => {},
    }
}

/// The space key asks for the event that flips the play state.
pub proof fn lemma_space_toggles(state: WatcherView, now_ms: u128)
    ensures
        state.command_for(Message::KeySpacePressed) == Command::SendPlay ==> state.after(
            Message::PlayButtonPressed,
            now_ms,
        ).clock.playing == !state.clock.playing,
        state.command_for(Message::KeySpacePressed) == Command::SendPause ==> state.after(
            Message::PauseButtonPressed,
            now_ms,
        ).clock.playing == !state.clock.playing,
        state.command_for(Message::KeySpacePressed) != Command::Nothing,
        state.command_for(Message::KeySpacePressed) != Command::PickFile,
{
}

} // verus!
