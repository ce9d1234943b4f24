//! What holds of the profiler: which timings are shown, in what order, over
//! what time, and in which window.
use crate::profiler::{
    end_of, first_profiler, is_shown, law_nothing_is_flattened_to_nothing, less, location_label,
    thread_by_thread, window_duration, window_start, ListenerChange, ProfileSource,
    ProfileTimings, ProfilerWindow, LISTEN_INTERVAL_MICROS,
};
use crate::text::{basename_of, decimal, has_suffix};
use crate::text_laws::law_suffix;
use crate::timings::{
    by_start, law_by_start_is_stable_sort, law_by_start_keeps_timings, starting_at, targets,
    SerializedLocation, SerializedTaskTiming, SerializedThreadTaskTimings,
};
use vstd::prelude::*;

verus! {

/// A timing gets a bar exactly where it is of a million nanoseconds or more,
/// however long, and is not the profiler's own, unless those are asked for.
pub proof fn law_which_timings_get_a_bar(
    timing: SerializedTaskTiming,
    with_own: bool,
    front: Seq<char>,
)
    ensures
        timing.duration < 1_000_000 ==> !is_shown(timing, with_own),
        timing.duration >= 1_000_000 && with_own ==> is_shown(timing, with_own),
        timing.location.file@ == front + "miniprofiler_ui.rs"@ && !with_own ==> !is_shown(
            timing,
            with_own,
        ),
        timing.duration >= 1_000_000 && !is_shown(timing, with_own) ==> !with_own && {
            let file = timing.location.file@;
            let own = "miniprofiler_ui.rs"@;
            file.len() >= own.len() && file == file.take(file.len() - own.len()) + own
        },
{
    law_suffix(timing.location.file@, "miniprofiler_ui.rs"@, front);
    assert(timing.duration / 1_000_000u128 >= 1 <==> timing.duration >= 1_000_000);
}

/// Among the timings that get a bar is every timing of a million nanoseconds or
/// more whose file is not the profiler's own, every such own one where those are
/// asked for, and nothing else.
pub proof fn law_timings_with_a_bar(
    timings: Seq<SerializedTaskTiming>,
    with_own: bool,
    timing: SerializedTaskTiming,
)
    ensures
        timings.filter(|t: SerializedTaskTiming| is_shown(t, with_own)).contains(timing) <==> {
            &&& timings.contains(timing)
            &&& timing.duration >= 1_000_000
            &&& with_own || !has_suffix(timing.location.file@, "miniprofiler_ui.rs"@)
        },
{
    broadcast use vstd::seq_lib::group_filter_ensures;

    let shows = |t: SerializedTaskTiming| is_shown(t, with_own);
    let shown = timings.filter(shows);
    law_which_timings_get_a_bar(timing, with_own, Seq::empty());
    law_suffix(timing.location.file@, "miniprofiler_ui.rs"@, Seq::empty());
    assert(timing.duration / 1_000_000u128 >= 1 <==> timing.duration >= 1_000_000);
    assert(shows(timing) <==> timing.duration >= 1_000_000 && (with_own || !has_suffix(
        timing.location.file@,
        "miniprofiler_ui.rs"@,
    )));
    if shown.contains(timing) {
        let k = choose|k: int| 0 <= k < shown.len() && shown[k] == timing;
        assert(shows(shown[k]));
        lemma_filter_adds_nothing(timings, shows, timing);
    }
    if timings.contains(timing) && shows(timing) {
        let k = choose|k: int| 0 <= k < timings.len() && timings[k] == timing;
        assert(shown.contains(timings[k]));
    }
}

proof fn lemma_filter_adds_nothing(
    timings: Seq<SerializedTaskTiming>,
    shows: spec_fn(SerializedTaskTiming) -> bool,
    timing: SerializedTaskTiming,
)
    requires
        timings.filter(shows).contains(timing),
    ensures
        timings.contains(timing),
    decreases timings.len(),
{
    reveal(Seq::filter);
    if timings.len() > 0 {
        let rest = timings.drop_last();
        assert(timings.contains(timings.last())) by {
            assert(timings[timings.len() - 1] == timings.last());
        }
        if timing != timings.last() {
            let shown = timings.filter(shows);
            let k = choose|k: int| 0 <= k < shown.len() && shown[k] == timing;
            assert(rest.filter(shows)[k] == timing);
            lemma_filter_adds_nothing(rest, shows, timing);
            let m = choose|m: int| 0 <= m < rest.len() && rest[m] == timing;
            assert(timings[m] == timing);
        }
    }
}

/// The bars begin at the earliest time that is not before the first timing and
/// from which the last timing's end is ten seconds away at most.
pub proof fn law_window_begins_as_early_as_it_can(timings: Seq<SerializedTaskTiming>, t: int)
    requires
        timings.len() > 0,
    ensures
        window_start(timings) >= timings.first().start,
        timings.last().start + timings.last().duration - window_start(timings) <= 10_000_000_000,
        t >= timings.first().start && timings.last().start + timings.last().duration - t
            <= 10_000_000_000 ==> window_start(timings) <= t,
{
}

/// The bars cover the shortest time of a nanosecond or more that reaches the
/// last timing's end.
pub proof fn law_window_ends_as_early_as_it_can(timings: Seq<SerializedTaskTiming>, duration: int)
    requires
        timings.len() > 0,
    ensures
        window_duration(timings) >= 1,
        window_start(timings) + window_duration(timings) >= timings.last().start
            + timings.last().duration,
        duration >= 1 && window_start(timings) + duration >= timings.last().start
            + timings.last().duration ==> window_duration(timings) <= duration,
{
}

/// What begins at the window's start or behind it keeps its distance from it,
/// and what begins before it is drawn from the start on.
pub proof fn law_offsets(nanos: int, window_start: int)
    ensures
        nanos >= window_start ==> less(nanos, window_start) + window_start == nanos,
        nanos <= window_start ==> less(nanos, window_start) == 0,
{
}

/// A timing ends its duration behind its start.
pub proof fn law_end_of_timing(timing: SerializedTaskTiming)
    ensures
        end_of(timing) - timing.start == timing.duration,
{
}

/// A place is labelled by the name of the file, the line and the column, with a
/// colon between each two.
pub proof fn law_label_of_place(location: SerializedLocation)
    ensures
        location_label(location) == basename_of(location.file@).push(':') + decimal(
            location.line as nat,
        ).push(':') + decimal(location.column as nat),
{
    reveal_strlit(":");
    assert(location_label(location) =~= basename_of(location.file@).push(':') + decimal(
        location.line as nat,
    ).push(':') + decimal(location.column as nat));
}

/// The timings of the foreground stay as they are.
pub proof fn law_foreground_stays(timings: Vec<SerializedTaskTiming>)
    ensures
        ProfileTimings::Foreground(timings).flattened() == timings@,
{
}

/// No timing stands before one that starts earlier, whatever thread they are of.
pub proof fn law_threads_are_in_order(
    threads: Vec<SerializedThreadTaskTimings>,
    i: int,
    j: int,
)
    requires
        0 <= i <= j < ProfileTimings::AllThreads(threads).flattened().len(),
    ensures
        ProfileTimings::AllThreads(threads).flattened()[i].start
            <= ProfileTimings::AllThreads(threads).flattened()[j].start,
{
    law_by_start_is_stable_sort(thread_by_thread(threads@));
}

/// The timings of all threads are all there, each as often as on the threads,
/// and timings of one start stand in the order of the threads and on them.
pub proof fn law_threads_are_kept(threads: Vec<SerializedThreadTaskTimings>, start: u128)
    ensures
        ProfileTimings::AllThreads(threads).flattened().to_multiset() == thread_by_thread(
            threads@,
        ).to_multiset(),
        ProfileTimings::AllThreads(threads).flattened().filter(
            |timing: SerializedTaskTiming| timing.start == start,
        ) == thread_by_thread(threads@).filter(
            |timing: SerializedTaskTiming| timing.start == start,
        ),
{
    let all = thread_by_thread(threads@);
    law_by_start_keeps_timings(all);
    law_by_start_is_stable_sort(all);
    assert(starting_at(by_start(all), start) == starting_at(all, start));
    lemma_starting_at_is_filter(all, start);
    lemma_starting_at_is_filter(by_start(all), start);
}

proof fn lemma_starting_at_is_filter(s: Seq<SerializedTaskTiming>, start: u128)
    ensures
        starting_at(s, start) == s.filter(|timing: SerializedTaskTiming| timing.start == start),
    decreases s.len(),
{
    reveal(Seq::filter);
    if s.len() > 0 {
        lemma_starting_at_is_filter(s.drop_last(), start);
    }
}

/// Thread by thread: nothing of no thread, the timings of one thread as they
/// are, and those of more threads one list behind the other.
pub proof fn law_thread_by_thread(
    one: SerializedThreadTaskTimings,
    first: Seq<SerializedThreadTaskTimings>,
    second: Seq<SerializedThreadTaskTimings>,
)
    ensures
        thread_by_thread(Seq::empty()) == Seq::<SerializedTaskTiming>::empty(),
        thread_by_thread(seq![one]) == one.timings@,
        thread_by_thread(first + second) == thread_by_thread(first) + thread_by_thread(second),
    decreases second.len(),
{
    assert(seq![one].drop_last() =~= Seq::<SerializedThreadTaskTimings>::empty());
    assert(thread_by_thread(Seq::<SerializedThreadTaskTimings>::empty()) =~= Seq::<
        SerializedTaskTiming,
    >::empty());
    assert(thread_by_thread(seq![one]) =~= one.timings@);
    if second.len() == 0 {
        assert(first + second =~= first);
        assert(thread_by_thread(first) + thread_by_thread(second) =~= thread_by_thread(first));
    } else {
        law_thread_by_thread(one, first, second.drop_last());
        assert((first + second).drop_last() =~= first + second.drop_last());
        assert(thread_by_thread(first + second) =~= thread_by_thread(first) + thread_by_thread(
            second,
        ));
    }
}

/// References lead to what they lead to, in order.
pub proof fn law_targets(refs: Seq<&SerializedTaskTiming>)
    ensures
        targets(refs).len() == refs.len(),
        forall|i: int| 0 <= i < refs.len() ==> #[trigger] targets(refs)[i] == *refs[i],
{
}

/// There is no timing exactly where no thread has one.
pub proof fn law_what_holds_nothing(
    timings: Vec<SerializedTaskTiming>,
    threads: Vec<SerializedThreadTaskTimings>,
    i: int,
)
    ensures
        ProfileTimings::Foreground(timings).holds_nothing() <==> timings@.len() == 0,
        0 <= i < threads@.len() && threads@[i].timings@.len() > 0 ==> !ProfileTimings::AllThreads(
            threads,
        ).holds_nothing(),
        thread_by_thread(threads@).len() == 0 <==> ProfileTimings::AllThreads(
            threads,
        ).holds_nothing(),
{
    law_nothing_is_flattened_to_nothing(ProfileTimings::AllThreads(threads));
    law_by_start_keeps_timings(thread_by_thread(threads@));
}

/// A profiler window is found exactly where one is in the list, and then the
/// first of them.
pub proof fn law_first_profiler_is_found(windows: Seq<Option<u64>>, i: int)
    requires
        0 <= i <= windows.len(),
        forall|j: int| 0 <= j < i ==> windows[j] is None,
    ensures
        i < windows.len() && windows[i] is Some ==> first_profiler(windows) == windows[i],
        i == windows.len() ==> first_profiler(windows) is None,
    decreases windows.len(),
{
    if windows.len() > 0 && i > 0 {
        let rest = windows.drop_first();
        assert(windows[0] is None);
        assert forall|j: int| 0 <= j < i - 1 implies rest[j] is None by {
            assert(windows[j + 1] is None);
        }
        law_first_profiler_is_found(rest, i - 1);
    }
}

/// Choosing a source chooses it and nothing else: a window that listens goes on
/// with that source, one that is paused stays paused.
pub proof fn law_choosing_a_source(window: ProfilerWindow, source: ProfileSource)
    requires
        window.refresh is Some ==> window.refresh == Some(window.source),
    ensures
        window.with_source(source) == (ProfilerWindow {
            source,
            refresh: if window.refresh is Some {
                Some(source)
            } else {
                None
            },
            ..window
        }),
        window.wf(),
{
}

/// Switching pauses a window that listens, has a paused one listen to the
/// chosen source, and changes nothing else.
pub proof fn law_switching(window: ProfilerWindow)
    ensures
        window.refresh is Some ==> window.switched() == (ProfilerWindow {
            refresh: None,
            ..window
        }),
        window.refresh is None ==> window.switched() == (ProfilerWindow {
            refresh: Some(window.source),
            ..window
        }),
{
}

/// Whoever listens is changed exactly as the window is: a task is started for
/// the source that the window listens to from then on, stopped where it listens
/// to none, and kept where nothing of that changes. Only choosing what is chosen
/// already needs no drawing.
pub proof fn law_listener_follows_window(window: ProfilerWindow, source: ProfileSource)
    requires
        window.wf(),
    ensures
        match window.source_effect(source).listener {
            ListenerChange::Start(started) => window.with_source(source).refresh == Some(started)
                && window.refresh != Some(started),
            ListenerChange::Stop => false,
            ListenerChange::Keep => window.with_source(source).refresh == window.refresh,
        },
        window.source_effect(source).notify <==> window.with_source(source) != window,
        match window.switch_effect().listener {
            ListenerChange::Start(started) => window.switched().refresh == Some(started)
                && window.refresh is None,
            ListenerChange::Stop => window.switched().refresh is None && window.refresh is Some,
            ListenerChange::Keep => false,
        },
        window.switch_effect().notify,
{
}

/// A profile is saved exactly where there is a workspace and a timing to save.
pub proof fn law_what_is_saved(window: ProfilerWindow)
    ensures
        window.saves() <==> window.workspace is Some && window.timings.flattened().len() > 0,
{
    law_nothing_is_flattened_to_nothing(window.timings);
}

/// A well-formed window listens to the chosen source or to none.
pub proof fn law_listens_to_chosen_source(window: ProfilerWindow)
    ensures
        window.wf() <==> (window.refresh is None || window.refresh == Some(window.source)),
        LISTEN_INTERVAL_MICROS == 1,
{
}

} // verus!
