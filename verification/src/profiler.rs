//! The window that shows how long tasks took.
use crate::profiler_laws::law_timings_with_a_bar;
use crate::text::{basename, basename_of, decimal, decimal_string, ends_with, has_suffix};
use crate::timings::{
    by_start, law_by_start_keeps_timings, sort_by_start, targets, SerializedLocation,
    SerializedTaskTiming, SerializedThreadTaskTimings,
};
use vstd::prelude::*;
use vstd::string::*;

verus! {

/// The nanoseconds in a millisecond.
pub const NANOS_PER_MS: u128 = 1_000_000;

/// The time that the bars cover, at most.
pub const VISIBLE_WINDOW_NANOS: u128 = 10_000_000_000;

/// The microseconds between two rounds of listening.
pub const LISTEN_INTERVAL_MICROS: u64 = 1;

/// Whose timings are shown.
#[derive(Debug, Clone, Copy, PartialEq, Eq, Structural)]
pub enum ProfileSource {
    Foreground,
    AllThreads,
}

/// How a source is called.
pub open spec fn label_of(source: ProfileSource) -> Seq<char> {
    match source {
        ProfileSource::Foreground => "Foreground"@,
        ProfileSource::AllThreads => "All threads"@,
    }
}

impl ProfileSource {
    /// How the source is called.
    pub fn label(&self) -> (r: &'static str)
        ensures
            r@ == label_of(*self),
    {
        match self {
            ProfileSource::Foreground => "Foreground",
            ProfileSource::AllThreads => "All threads",
        }
    }
}

/// The timings of a source.
#[derive(Debug)]
pub enum ProfileTimings {
    Foreground(Vec<SerializedTaskTiming>),
    AllThreads(Vec<SerializedThreadTaskTimings>),
}

/// The timings of all threads, thread by thread.
pub open spec fn thread_by_thread(threads: Seq<SerializedThreadTaskTimings>) -> Seq<
    SerializedTaskTiming,
>
    decreases threads.len(),
{
    if threads.len() == 0 {
        Seq::empty()
    } else {
        thread_by_thread(threads.drop_last()) + threads.last().timings@
    }
}

impl ProfileTimings {
    /// The timings as one list: those of the foreground as they are, those of
    /// all threads by start.
    pub open spec fn flattened(self) -> Seq<SerializedTaskTiming> {
        match self {
            ProfileTimings::Foreground(timings) => timings@,
            ProfileTimings::AllThreads(threads) => by_start(thread_by_thread(threads@)),
        }
    }

    /// Whether there is no timing, on any thread.
    pub open spec fn holds_nothing(self) -> bool {
        match self {
            ProfileTimings::Foreground(timings) => timings@.len() == 0,
            ProfileTimings::AllThreads(threads) => forall|i: int|
                0 <= i < threads@.len() ==> (#[trigger] threads@[i]).timings@.len() == 0,
        }
    }

    /// The timings as one list.
    pub fn flattened_timings(&self) -> (r: Vec<SerializedTaskTiming>)
        ensures
            r@ == self.flattened(),
    {
        match self {
            ProfileTimings::Foreground(timings) => {
                let mut r: Vec<SerializedTaskTiming> = Vec::new();
                let mut i: usize = 0;
                while i < timings.len()
                    invariant
                        i <= timings.len(),
                        r@ == timings@.take(i as int),
                    decreases timings.len() - i,
                {
                    r.push(timings[i].clone());
                    assert(timings@.take(i + 1) =~= timings@.take(i as int).push(
                        timings@[i as int],
                    ));
                    i = i + 1;
                }
                assert(timings@.take(i as int) =~= timings@);
                r
            },
            ProfileTimings::AllThreads(threads) => {
                let mut all: Vec<&SerializedTaskTiming> = Vec::new();
                let mut t: usize = 0;
                assert(targets(all@) =~= thread_by_thread(threads@.take(0)));
                while t < threads.len()
                    invariant
                        t <= threads.len(),
                        targets(all@) == thread_by_thread(threads@.take(t as int)),
                    decreases threads.len() - t,
                {
                    let thread = &threads[t];
                    let ghost before = targets(all@);
                    let mut i: usize = 0;
                    assert(before + thread.timings@.take(0) =~= before);
                    while i < thread.timings.len()
                        invariant
                            i <= thread.timings.len(),
                            targets(all@) == before + thread.timings@.take(i as int),
                        decreases thread.timings.len() - i,
                    {
                        let ghost old_all = all@;
                        all.push(&thread.timings[i]);
                        proof {
                            assert(targets(all@) =~= targets(old_all).push(
                                thread.timings@[i as int],
                            ));
                            assert(thread.timings@.take(i + 1) =~= thread.timings@.take(
                                i as int,
                            ).push(thread.timings@[i as int]));
                            assert(targets(all@) =~= before + thread.timings@.take(i + 1));
                        }
                        i = i + 1;
                    }
                    proof {
                        assert(thread.timings@.take(i as int) =~= thread.timings@);
                        assert(threads@.take(t + 1).drop_last() =~= threads@.take(t as int));
                    }
                    t = t + 1;
                }
                assert(threads@.take(t as int) =~= threads@);
                sort_by_start(&all)
            },
        }
    }

    /// Tests whether there is no timing, on any thread.
    pub fn is_empty(&self) -> (r: bool)
        ensures
            r == self.holds_nothing(),
    {
        match self {
            ProfileTimings::Foreground(timings) => timings.len() == 0,
            ProfileTimings::AllThreads(threads) => {
                let mut t: usize = 0;
                while t < threads.len()
                    invariant
                        *self == ProfileTimings::AllThreads(*threads),
                        t <= threads.len(),
                        forall|i: int|
                            0 <= i < t ==> (#[trigger] threads@[i]).timings@.len() == 0,
                    decreases threads.len() - t,
                {
                    if threads[t].timings.len() != 0 {
                        assert(threads@[t as int].timings@.len() != 0);
                        return false;
                    }
                    t = t + 1;
                }
                true
            },
        }
    }
}

/// There is no timing exactly where the list of timings is empty.
pub proof fn law_nothing_is_flattened_to_nothing(timings: ProfileTimings)
    ensures
        timings.holds_nothing() <==> timings.flattened().len() == 0,
{
    match timings {
        ProfileTimings::Foreground(_) => {},
        ProfileTimings::AllThreads(threads) => {
            law_by_start_keeps_timings(thread_by_thread(threads@));
            lemma_thread_by_thread_empty(threads@);
        },
    }
}

proof fn lemma_thread_by_thread_empty(threads: Seq<SerializedThreadTaskTimings>)
    ensures
        thread_by_thread(threads).len() == 0 <==> forall|i: int|
            0 <= i < threads.len() ==> (#[trigger] threads[i]).timings@.len() == 0,
    decreases threads.len(),
{
    if threads.len() > 0 {
        let rest = threads.drop_last();
        lemma_thread_by_thread_empty(rest);
        if thread_by_thread(threads).len() == 0 {
            assert forall|i: int| 0 <= i < threads.len() implies (
            #[trigger] threads[i]).timings@.len() == 0 by {
                if i < rest.len() {
                    assert(rest[i].timings@.len() == 0);
                }
            }
        } else if forall|i: int|
            0 <= i < threads.len() ==> (#[trigger] threads[i]).timings@.len() == 0 {
            assert forall|i: int| 0 <= i < rest.len() implies (
            #[trigger] rest[i]).timings@.len() == 0 by {
                assert(threads[i].timings@.len() == 0);
            }
            assert(threads[threads.len() - 1].timings@.len() == 0);
        }
    }
}

/// The state of a box that can be checked.
#[derive(Debug, Clone, Copy, PartialEq, Eq, Structural)]
pub enum ToggleState {
    Unselected,
    Indeterminate,
    Selected,
}

impl ToggleState {
    /// Whether the box is checked.
    pub fn selected(&self) -> (r: bool)
        ensures
            r == (*self == ToggleState::Selected),
    {
        match self {
            ToggleState::Selected => true,
            _ => false,
        }
    }
}

/// Whether a timing gets a bar: it is of a millisecond or more, and the
/// profiler's own only where they are asked for.
pub open spec fn is_shown(timing: SerializedTaskTiming, with_own: bool) -> bool {
    &&& timing.duration / NANOS_PER_MS >= 1
    &&& with_own || !has_suffix(timing.location.file@, "miniprofiler_ui.rs"@)
}

/// The end of a timing.
pub open spec fn end_of(timing: SerializedTaskTiming) -> int {
    timing.start + timing.duration
}

/// What is left of `a` when `b` is taken away, and nothing where `b` is more.
pub open spec fn less(a: int, b: int) -> int {
    if a >= b {
        a - b
    } else {
        0
    }
}

/// Where the bars begin: a window's length before the last timing's end, but
/// not before the first timing.
pub open spec fn window_start(timings: Seq<SerializedTaskTiming>) -> int {
    let earliest = less(end_of(timings.last()), VISIBLE_WINDOW_NANOS as int);
    if earliest >= timings[0].start {
        earliest
    } else {
        timings[0].start as int
    }
}

/// The time that the bars cover: up to the last timing's end, and at least a nanosecond.
pub open spec fn window_duration(timings: Seq<SerializedTaskTiming>) -> int {
    let duration = less(end_of(timings.last()), window_start(timings));
    if duration >= 1 {
        duration
    } else {
        1
    }
}

/// The bars cover some time and no more than the visible window.
pub proof fn law_window_is_bounded(timings: Seq<SerializedTaskTiming>)
    requires
        timings.len() > 0,
    ensures
        1 <= window_duration(timings) <= VISIBLE_WINDOW_NANOS,
        window_start(timings) >= timings[0].start,
{
}

/// The bars end where the last timing does, if that is behind the first timing's start.
pub proof fn law_window_ends_with_last_timing(timings: Seq<SerializedTaskTiming>)
    requires
        timings.len() > 0,
        timings[0].start < end_of(timings.last()),
    ensures
        window_start(timings) + window_duration(timings) == end_of(timings.last()),
{
}

/// The timings that get a bar, and the time that the bars cover.
#[derive(Debug)]
pub struct Timeline {
    pub timings: Vec<SerializedTaskTiming>,
    pub window_start_nanos: u128,
    pub window_duration_nanos: u128,
}

/// What a bar shows.
#[derive(Debug)]
pub struct TimingBar {
    pub location: SerializedLocation,
    pub start_nanos: u128,
    pub duration_nanos: u128,
}

/// What stands beside a bar, and where the bar begins and ends in the window.
#[derive(Debug)]
pub struct BarLayout {
    pub label: String,
    pub start_offset_nanos: u128,
    pub end_offset_nanos: u128,
}

/// How a place in the source code is written: the file's name, the line and the column.
pub open spec fn location_label(location: SerializedLocation) -> Seq<char> {
    basename_of(location.file@) + ":"@ + decimal(location.line as nat) + ":"@ + decimal(
        location.column as nat,
    )
}

impl TimingBar {
    /// The bar of a timing.
    pub fn of(timing: &SerializedTaskTiming) -> (r: Self)
        ensures
            r.location == timing.location,
            r.start_nanos == timing.start,
            r.duration_nanos == timing.duration,
    {
        TimingBar {
            location: timing.location.clone(),
            start_nanos: timing.start,
            duration_nanos: timing.duration,
        }
    }

    /// Lays the bar out in a window that begins at `window_start_nanos`.
    pub fn layout(&self, window_start_nanos: u128) -> (r: BarLayout)
        requires
            self.start_nanos + self.duration_nanos <= u128::MAX,
        ensures
            r.label@ == location_label(self.location),
            r.start_offset_nanos == less(self.start_nanos as int, window_start_nanos as int),
            r.end_offset_nanos == less(
                self.start_nanos + self.duration_nanos,
                window_start_nanos as int,
            ),
            r.start_offset_nanos <= r.end_offset_nanos,
            r.end_offset_nanos - r.start_offset_nanos <= self.duration_nanos,
    {
        let end_nanos: u128 = self.start_nanos + self.duration_nanos;
        let start_offset_nanos: u128 = if self.start_nanos >= window_start_nanos {
            self.start_nanos - window_start_nanos
        } else {
            0
        };
        let end_offset_nanos: u128 = if end_nanos >= window_start_nanos {
            end_nanos - window_start_nanos
        } else {
            0
        };
        let line = decimal_string(self.location.line);
        let column = decimal_string(self.location.column);
        let mut label = basename(self.location.file.as_str()).to_owned();
        label.append(":");
        label.append(line.as_str());
        label.append(":");
        label.append(column.as_str());
        BarLayout { label, start_offset_nanos, end_offset_nanos }
    }
}

/// What a change of the window asks of the one who listens for it.
#[derive(Debug, Clone, Copy, PartialEq, Eq, Structural)]
pub enum ListenerChange {
    Keep,
    Start(ProfileSource),
    Stop,
}

/// What a change of the window asks for.
#[derive(Debug, Clone, Copy, PartialEq, Eq, Structural)]
pub struct WindowEffect {
    pub listener: ListenerChange,
    /// Whether the window is to be drawn anew.
    pub notify: bool,
}

/// What a round of listening asks for: timings that count from the startup time.
#[derive(Debug, Clone, Copy, PartialEq, Eq, Structural)]
pub enum TimingsQuery {
    CurrentThread { startup_time: u64 },
    AllThreads { startup_time: u64 },
}

/// The menu of the sources.
#[derive(Debug)]
pub struct SourceDropdown {
    /// What the closed menu shows.
    pub label: &'static str,
    pub entries: Vec<ProfileSource>,
    /// How many times the next entry is to be selected in the open menu.
    pub select_next: usize,
}

/// The window that shows how long tasks took.
#[derive(Debug)]
pub struct ProfilerWindow {
    /// The moment from which timings count, by its number.
    pub startup_time: u64,
    pub source: ProfileSource,
    pub timings: ProfileTimings,
    pub include_self_timings: ToggleState,
    pub autoscroll: bool,
    /// The workspace that profiles are saved from, by its number.
    pub workspace: Option<u64>,
    /// The source that is listened to; `None` while the window is paused.
    pub refresh: Option<ProfileSource>,
}

impl ProfilerWindow {
    /// Whoever is listened to is the source that is shown as chosen.
    pub open spec fn wf(self) -> bool {
        self.refresh matches Some(source) ==> source == self.source
    }

    /// Whether there is something to save: a workspace to save from, and timings.
    pub open spec fn saves(self) -> bool {
        self.workspace is Some && !self.timings.holds_nothing()
    }

    /// What choosing a source asks for.
    pub open spec fn source_effect(self, source: ProfileSource) -> WindowEffect {
        WindowEffect {
            listener: if self.source == source || self.refresh is None {
                ListenerChange::Keep
            } else {
                ListenerChange::Start(source)
            },
            notify: self.source != source,
        }
    }

    /// What pausing or resuming asks for.
    pub open spec fn switch_effect(self) -> WindowEffect {
        WindowEffect {
            listener: if self.refresh is None {
                ListenerChange::Start(self.source)
            } else {
                ListenerChange::Stop
            },
            notify: true,
        }
    }

    /// The window with `source` chosen.
    pub open spec fn with_source(self, source: ProfileSource) -> Self {
        if self.source == source {
            self
        } else {
            ProfilerWindow {
                source,
                refresh: if self.refresh is None {
                    None
                } else {
                    Some(source)
                },
                ..self
            }
        }
    }

    /// The window paused if it listens, and listening if it is paused.
    pub open spec fn switched(self) -> Self {
        ProfilerWindow {
            refresh: if self.refresh is None {
                Some(self.source)
            } else {
                None
            },
            ..self
        }
    }

    /// A window that listens to the foreground and has heard nothing yet.
    pub fn new(startup_time: u64, workspace: Option<u64>) -> (r: Self)
        ensures
            r.wf(),
            r.startup_time == startup_time,
            r.source == ProfileSource::Foreground,
            r.timings matches ProfileTimings::Foreground(timings) && timings@.len() == 0,
            r.include_self_timings == ToggleState::Unselected,
            r.autoscroll,
            r.workspace == workspace,
            r.refresh == Some(ProfileSource::Foreground),
    {
        let source = ProfileSource::Foreground;
        ProfilerWindow {
            startup_time,
            source,
            timings: ProfileTimings::Foreground(Vec::new()),
            include_self_timings: ToggleState::Unselected,
            autoscroll: true,
            workspace,
            refresh: Some(source),
        }
    }

    /// What each round of listening to `source` asks for.
    pub fn begin_listen(&self, source: ProfileSource) -> (r: TimingsQuery)
        ensures
            r == match source {
                ProfileSource::Foreground => TimingsQuery::CurrentThread {
                    startup_time: self.startup_time,
                },
                ProfileSource::AllThreads => TimingsQuery::AllThreads {
                    startup_time: self.startup_time,
                },
            },
    {
        let startup_time: u64 = self.startup_time;
        match source {
            ProfileSource::Foreground => TimingsQuery::CurrentThread { startup_time },
            ProfileSource::AllThreads => TimingsQuery::AllThreads { startup_time },
        }
    }

    /// Takes in what a round of listening to the foreground has brought.
    pub fn receive_foreground(&mut self, timings: Vec<SerializedTaskTiming>) -> (r: WindowEffect)
        ensures
            *final(self) == (ProfilerWindow {
                timings: ProfileTimings::Foreground(timings),
                ..*old(self)
            }),
            r == (WindowEffect { listener: ListenerChange::Keep, notify: true }),
            old(self).wf() ==> final(self).wf(),
    {
        self.timings = ProfileTimings::Foreground(timings);
        WindowEffect { listener: ListenerChange::Keep, notify: true }
    }

    /// Takes in what a round of listening to all threads has brought.
    pub fn receive_all_threads(&mut self, threads: Vec<SerializedThreadTaskTimings>) -> (r:
        WindowEffect)
        ensures
            *final(self) == (ProfilerWindow {
                timings: ProfileTimings::AllThreads(threads),
                ..*old(self)
            }),
            r == (WindowEffect { listener: ListenerChange::Keep, notify: true }),
            old(self).wf() ==> final(self).wf(),
    {
        self.timings = ProfileTimings::AllThreads(threads);
        WindowEffect { listener: ListenerChange::Keep, notify: true }
    }

    /// Takes over the workspace that profiles are saved from.
    pub fn set_workspace(&mut self, workspace: u64)
        ensures
            *final(self) == (ProfilerWindow { workspace: Some(workspace), ..*old(self) }),
            old(self).wf() ==> final(self).wf(),
    {
        self.workspace = Some(workspace);
    }

    /// Whether the window is paused.
    pub fn is_paused(&self) -> (r: bool)
        ensures
            r == self.refresh is None,
    {
        self.refresh.is_none()
    }

    /// Chooses a source. One that is chosen already changes nothing; another is
    /// listened to from then on, unless the window is paused.
    pub fn set_source(&mut self, source: ProfileSource) -> (r: WindowEffect)
        ensures
            *final(self) == old(self).with_source(source),
            r == old(self).source_effect(source),
            old(self).wf() ==> final(self).wf(),
    {
        if self.source == source {
            return WindowEffect { listener: ListenerChange::Keep, notify: false };
        }
        self.source = source;
        if self.is_paused() {
            WindowEffect { listener: ListenerChange::Keep, notify: true }
        } else {
            self.refresh = Some(source);
            WindowEffect { listener: ListenerChange::Start(source), notify: true }
        }
    }

    /// What the button that pauses and resumes says.
    pub fn switch_mode_label(&self) -> (r: &'static str)
        ensures
            r@ == if self.refresh is None {
                "Resume"@
            } else {
                "Pause"@
            },
    {
        if self.is_paused() {
            "Resume"
        } else {
            "Pause"
        }
    }

    /// Pauses the window, or resumes listening to the chosen source.
    pub fn switch_mode(&mut self) -> (r: WindowEffect)
        ensures
            *final(self) == old(self).switched(),
            r == old(self).switch_effect(),
            final(self).wf(),
    {
        if self.is_paused() {
            self.refresh = Some(self.source);
            WindowEffect { listener: ListenerChange::Start(self.source), notify: true }
        } else {
            self.refresh = None;
            WindowEffect { listener: ListenerChange::Stop, notify: true }
        }
    }

    /// Takes over the state of the box for the profiler's own timings.
    pub fn set_include_self_timings(&mut self, checked: ToggleState) -> (r: WindowEffect)
        ensures
            *final(self) == (ProfilerWindow { include_self_timings: checked, ..*old(self) }),
            r == (WindowEffect { listener: ListenerChange::Keep, notify: true }),
            old(self).wf() ==> final(self).wf(),
    {
        self.include_self_timings = checked;
        WindowEffect { listener: ListenerChange::Keep, notify: true }
    }

    /// Stops following the end of the list when the user scrolls.
    pub fn scrolled(&mut self) -> (r: WindowEffect)
        ensures
            *final(self) == (ProfilerWindow { autoscroll: false, ..*old(self) }),
            r == (WindowEffect { listener: ListenerChange::Keep, notify: true }),
            old(self).wf() ==> final(self).wf(),
    {
        self.autoscroll = false;
        WindowEffect { listener: ListenerChange::Keep, notify: true }
    }

    /// Follows the end of the list exactly while it is in sight, and tells
    /// whether to scroll there.
    pub fn follow_end(&mut self, end_in_sight: bool) -> (r: bool)
        ensures
            *final(self) == (ProfilerWindow { autoscroll: end_in_sight, ..*old(self) }),
            r == end_in_sight,
            old(self).wf() ==> final(self).wf(),
    {
        self.autoscroll = end_in_sight;
        self.autoscroll
    }

    /// The menu of the sources, with the chosen one selected.
    pub fn source_dropdown(&self) -> (r: SourceDropdown)
        ensures
            r.label@ == label_of(self.source),
            r.entries@ == seq![ProfileSource::Foreground, ProfileSource::AllThreads],
            1 <= r.select_next <= r.entries@.len(),
            r.entries@[r.select_next - 1] == self.source,
    {
        let mut entries: Vec<ProfileSource> = Vec::new();
        entries.push(ProfileSource::Foreground);
        entries.push(ProfileSource::AllThreads);
        assert(entries@ =~= seq![ProfileSource::Foreground, ProfileSource::AllThreads]);
        let mut index: usize = 0;
        while index + 1 < entries.len() && entries[index] != self.source
            invariant
                index < entries.len(),
                entries@ == seq![ProfileSource::Foreground, ProfileSource::AllThreads],
                forall|i: int| 0 <= i < index ==> entries@[i] != self.source,
            decreases entries.len() - index,
        {
            index = index + 1;
        }
        SourceDropdown { label: self.source.label(), entries, select_next: index + 1 }
    }

    /// The timings to save, if there is a workspace to save from and there are any.
    pub fn export(&self) -> (r: Option<&ProfileTimings>)
        ensures
            r == if self.saves() {
                Some(&self.timings)
            } else {
                None
            },
    {
        if self.workspace.is_none() || self.timings.is_empty() {
            None
        } else {
            Some(&self.timings)
        }
    }

    /// What the bars show, if there is any timing.
    pub fn timeline(&self) -> (r: Option<Timeline>)
        requires
            self.timings.flattened().len() > 0 ==> end_of(self.timings.flattened().last())
                <= u128::MAX,
        ensures
            r is Some <==> self.timings.flattened().len() > 0,
            r matches Some(timeline) ==> {
                let timings = self.timings.flattened();
                let with_own = self.include_self_timings == ToggleState::Selected;
                &&& timeline.timings@ == timings.filter(
                    |timing: SerializedTaskTiming| is_shown(timing, with_own),
                )
                &&& forall|i: int|
                    0 <= i < timings.len() && timings[i].duration >= 1_000_000 && (with_own
                        || !has_suffix(timings[i].location.file@, "miniprofiler_ui.rs"@))
                        ==> timeline.timings@.contains(#[trigger] timings[i])
                &&& timeline.window_start_nanos == window_start(timings)
                &&& timeline.window_duration_nanos == window_duration(timings)
            },
    {
        proof {
            law_nothing_is_flattened_to_nothing(self.timings);
        }
        if self.timings.is_empty() {
            return None;
        }
        let timings = self.timings.flattened_timings();
        let with_own = self.include_self_timings.selected();
        let min_nanos: u128 = timings[0].start;
        let last = &timings[timings.len() - 1];
        let max_nanos: u128 = last.start + last.duration;
        let earliest: u128 = if max_nanos >= VISIBLE_WINDOW_NANOS {
            max_nanos - VISIBLE_WINDOW_NANOS
        } else {
            0
        };
        let window_start_nanos: u128 = if earliest >= min_nanos {
            earliest
        } else {
            min_nanos
        };
        let duration: u128 = if max_nanos >= window_start_nanos {
            max_nanos - window_start_nanos
        } else {
            0
        };
        let window_duration_nanos: u128 = if duration >= 1 {
            duration
        } else {
            1
        };
        let shown = shown_timings(&timings, with_own);
        proof {
            assert forall|i: int|
                0 <= i < timings@.len() && timings@[i].duration >= 1_000_000 && (with_own
                    || !has_suffix(timings@[i].location.file@, "miniprofiler_ui.rs"@)) implies
                shown@.contains(#[trigger] timings@[i]) by {
                law_timings_with_a_bar(timings@, with_own, timings@[i]);
                assert(timings@.contains(timings@[i]));
            }
        }
        Some(Timeline { timings: shown, window_start_nanos, window_duration_nanos })
    }
}

/// The timings that get a bar.
fn shown_timings(timings: &Vec<SerializedTaskTiming>, with_own: bool) -> (r: Vec<
    SerializedTaskTiming,
>)
    ensures
        r@ == timings@.filter(|timing: SerializedTaskTiming| is_shown(timing, with_own)),
{
    let ghost shows = |timing: SerializedTaskTiming| is_shown(timing, with_own);
    let mut r: Vec<SerializedTaskTiming> = Vec::new();
    let mut i: usize = 0;
    proof {
        reveal(Seq::filter);
        assert(timings@.take(0) =~= Seq::<SerializedTaskTiming>::empty());
    }
    while i < timings.len()
        invariant
            i <= timings.len(),
            shows == (|timing: SerializedTaskTiming| is_shown(timing, with_own)),
            r@ == timings@.take(i as int).filter(shows),
        decreases timings.len() - i,
    {
        proof {
            reveal(Seq::filter);
            assert(timings@.take(i + 1).drop_last() =~= timings@.take(i as int));
        }
        let timing = &timings[i];
        if timing.duration / NANOS_PER_MS >= 1 && (with_own || !ends_with(
            timing.location.file.as_str(),
            "miniprofiler_ui.rs",
        )) {
            r.push(timing.clone());
        }
        i = i + 1;
    }
    assert(timings@.take(i as int) =~= timings@);
    r
}

/// Pausing and resuming leaves the window as it was, and so does resuming and pausing.
pub proof fn law_switching_twice_changes_nothing(window: ProfilerWindow)
    requires
        window.wf(),
    ensures
        window.switched().switched() == window,
{
}

/// The last source that is chosen is the one that counts.
pub proof fn law_last_source_counts(
    window: ProfilerWindow,
    first: ProfileSource,
    last: ProfileSource,
)
    requires
        window.wf(),
    ensures
        window.with_source(first).with_source(last) == window.with_source(last),
{
}

/// Choosing a source and pausing can be done in either order.
pub proof fn law_source_and_mode_are_independent(window: ProfilerWindow, source: ProfileSource)
    requires
        window.wf(),
    ensures
        window.with_source(source).switched() == window.switched().with_source(source),
{
}

/// How a profiler window is opened.
#[derive(Debug)]
pub struct ProfilerWindowOptions {
    pub title: &'static str,
    pub width: u32,
    pub height: u32,
    pub appears_transparent: bool,
    pub focus: bool,
    pub show: bool,
    pub is_movable: bool,
}

/// What is done when the profiler is asked for.
#[derive(Debug)]
pub enum ProfilerAction {
    /// Hands the workspace to the window that is there, and brings it to the front.
    Activate { window: u64, workspace: u64 },
    /// Opens a window whose timings count from the startup time and that saves
    /// profiles from the workspace.
    Open { options: ProfilerWindowOptions, startup_time: u64, workspace: u64 },
}

/// The first profiler window among `windows`.
pub open spec fn first_profiler(windows: Seq<Option<u64>>) -> Option<u64>
    decreases windows.len(),
{
    if windows.len() == 0 {
        None
    } else if windows[0] is Some {
        windows[0]
    } else {
        first_profiler(windows.drop_first())
    }
}

/// Decides how the profiler is shown. Of each window the number is given if it
/// is a profiler window. The workspace that asks is handed over either way, the
/// startup time to a new window only.
pub fn open_performance_profiler(
    windows: &Vec<Option<u64>>,
    startup_time: u64,
    workspace: u64,
) -> (r: ProfilerAction)
    ensures
        r matches ProfilerAction::Activate { window, workspace: given } ==> first_profiler(windows@)
            == Some(window) && given == workspace,
        r is Open <==> first_profiler(windows@) is None,
        r is Open <==> forall|i: int| 0 <= i < windows@.len() ==> #[trigger] windows@[i] is None,
        r matches ProfilerAction::Activate { window, .. } ==> exists|i: int|
            0 <= i < windows@.len() && #[trigger] windows@[i] == Some(window) && forall|j: int|
                0 <= j < i ==> windows@[j] is None,
        r matches ProfilerAction::Open { options, startup_time: since, workspace: given } ==> {
            &&& since == startup_time
            &&& given == workspace
            &&& options.title@ == "Profiler Window"@
            &&& options.width == 1280 && options.height == 720
            &&& !options.appears_transparent
            &&& options.focus && options.show && options.is_movable
        },
{
    let mut i: usize = 0;
    assert(windows@.skip(0) =~= windows@);
    while i < windows.len()
        invariant
            i <= windows.len(),
            first_profiler(windows@) == first_profiler(windows@.skip(i as int)),
            forall|j: int| 0 <= j < i ==> windows@[j] is None,
        decreases windows.len() - i,
    {
        if let Some(window) = windows[i] {
            assert(windows@[i as int] == Some(window));
            return ProfilerAction::Activate { window, workspace };
        }
        assert(windows@.skip(i as int).drop_first() =~= windows@.skip(i + 1));
        i = i + 1;
    }
    ProfilerAction::Open {
        options: ProfilerWindowOptions {
            title: "Profiler Window",
            width: 1280,
            height: 720,
            appears_transparent: false,
            focus: true,
            show: true,
            is_movable: true,
        },
        startup_time,
        workspace,
    }
}

} // verus!
