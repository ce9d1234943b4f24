use zed::profiler::{
    open_performance_profiler, ListenerChange, ProfileSource, ProfileTimings, ProfilerAction,
    ProfilerWindow, TimingBar, TimingsQuery, ToggleState, WindowEffect, NANOS_PER_MS,
};
use zed::timings::{SerializedLocation, SerializedTaskTiming, SerializedThreadTaskTimings};

fn timing(file: &str, start: u128, duration: u128) -> SerializedTaskTiming {
    SerializedTaskTiming {
        location: SerializedLocation {
            file: file.to_string(),
            line: 1,
            column: 2,
        },
        start,
        duration,
    }
}

fn thread(timings: Vec<SerializedTaskTiming>) -> SerializedThreadTaskTimings {
    SerializedThreadTaskTimings {
        thread_name: None,
        thread_id: 0,
        timings,
    }
}

fn files(timings: &[SerializedTaskTiming]) -> Vec<String> {
    timings.iter().map(|t| t.location.file.clone()).collect()
}

#[test]
fn sources_have_labels() {
    assert_eq!(ProfileSource::Foreground.label(), "Foreground");
    assert_eq!(ProfileSource::AllThreads.label(), "All threads");
}

#[test]
fn threads_are_sorted_by_start_and_stay_in_order() {
    let timings = ProfileTimings::AllThreads(vec![
        thread(vec![timing("a", 5, 0), timing("b", 1, 0), timing("c", 5, 0)]),
        thread(vec![]),
        thread(vec![timing("d", 0, 0), timing("e", 5, 0), timing("f", 1, 0)]),
    ]);
    assert!(!timings.is_empty());
    assert_eq!(
        files(&timings.flattened_timings()),
        vec!["d", "b", "f", "a", "c", "e"]
    );
}

#[test]
fn sorting_agrees_with_a_stable_sort() {
    let mut state: u64 = 1;
    let mut threads = Vec::new();
    let mut all = Vec::new();
    for t in 0..7 {
        let mut timings = Vec::new();
        for i in 0..(t * 13 % 29) {
            state = state.wrapping_mul(6364136223846793005).wrapping_add(1442695040888963407);
            let file = format!("{}-{}", t, i);
            let start = u128::from(state >> 60);
            timings.push(timing(&file, start, 0));
            all.push((start, file));
        }
        threads.push(thread(timings));
    }
    all.sort_by_key(|pair| pair.0);
    let expected: Vec<String> = all.into_iter().map(|pair| pair.1).collect();
    assert_eq!(
        files(&ProfileTimings::AllThreads(threads).flattened_timings()),
        expected
    );
}

#[test]
fn the_foreground_stays_as_it_is() {
    let timings = ProfileTimings::Foreground(vec![timing("a", 5, 0), timing("b", 1, 0)]);
    assert!(!timings.is_empty());
    assert_eq!(files(&timings.flattened_timings()), vec!["a", "b"]);
}

#[test]
fn nothing_is_flattened_to_nothing() {
    for timings in [
        ProfileTimings::Foreground(vec![]),
        ProfileTimings::AllThreads(vec![]),
        ProfileTimings::AllThreads(vec![thread(vec![]), thread(vec![])]),
    ] {
        assert!(timings.is_empty());
        assert!(timings.flattened_timings().is_empty());
    }
}

#[test]
fn a_new_window_listens_to_the_foreground() {
    let window = ProfilerWindow::new(11, Some(3));
    assert_eq!(window.source, ProfileSource::Foreground);
    assert_eq!(window.refresh, Some(ProfileSource::Foreground));
    assert_eq!(window.workspace, Some(3));
    assert_eq!(window.startup_time, 11);
    assert!(window.autoscroll);
    assert!(!window.is_paused());
    assert!(!window.include_self_timings.selected());
    assert_eq!(window.switch_mode_label(), "Pause");
    assert!(window.timeline().is_none());
    assert!(window.export().is_none());
    assert_eq!(
        window.begin_listen(ProfileSource::Foreground),
        TimingsQuery::CurrentThread { startup_time: 11 }
    );
    assert_eq!(
        window.begin_listen(ProfileSource::AllThreads),
        TimingsQuery::AllThreads { startup_time: 11 }
    );
}

#[test]
fn choosing_a_source_restarts_listening_unless_paused() {
    let mut window = ProfilerWindow::new(11, None);
    let nothing = WindowEffect {
        listener: ListenerChange::Keep,
        notify: false,
    };
    assert_eq!(window.set_source(ProfileSource::Foreground), nothing);
    let effect = window.set_source(ProfileSource::AllThreads);
    assert_eq!(
        effect.listener,
        ListenerChange::Start(ProfileSource::AllThreads)
    );
    assert!(effect.notify);
    assert_eq!(window.refresh, Some(ProfileSource::AllThreads));

    assert_eq!(window.switch_mode().listener, ListenerChange::Stop);
    assert!(window.is_paused());
    assert_eq!(window.switch_mode_label(), "Resume");
    let effect = window.set_source(ProfileSource::Foreground);
    assert_eq!(effect.listener, ListenerChange::Keep);
    assert!(effect.notify);
    assert!(window.is_paused());
    let effect = window.switch_mode();
    assert_eq!(
        effect.listener,
        ListenerChange::Start(ProfileSource::Foreground)
    );
    assert_eq!(window.refresh, Some(ProfileSource::Foreground));
}

#[test]
fn the_menu_selects_the_chosen_source() {
    let mut window = ProfilerWindow::new(11, None);
    let menu = window.source_dropdown();
    assert_eq!(menu.label, "Foreground");
    assert_eq!(
        menu.entries,
        vec![ProfileSource::Foreground, ProfileSource::AllThreads]
    );
    assert_eq!(menu.select_next, 1);
    window.set_source(ProfileSource::AllThreads);
    let menu = window.source_dropdown();
    assert_eq!(menu.label, "All threads");
    assert_eq!(menu.select_next, 2);
}

#[test]
fn rounds_bring_the_timings_of_their_source() {
    let mut window = ProfilerWindow::new(11, None);
    assert!(window.timings.is_empty());
    let effect = window.receive_foreground(vec![timing("a", 0, 1)]);
    assert!(effect.notify);
    assert_eq!(effect.listener, ListenerChange::Keep);
    assert!(matches!(&window.timings, ProfileTimings::Foreground(t) if files(t) == vec!["a"]));
    let effect = window.receive_all_threads(vec![thread(vec![timing("b", 0, 1)])]);
    assert!(effect.notify);
    assert_eq!(effect.listener, ListenerChange::Keep);
    match &window.timings {
        ProfileTimings::AllThreads(threads) => assert_eq!(files(&threads[0].timings), vec!["b"]),
        other => panic!("unexpected timings {:?}", other),
    }
    assert_eq!(window.source, ProfileSource::Foreground);
    assert_eq!(window.startup_time, 11);
}

#[test]
fn profiles_are_saved_from_a_workspace_and_with_timings() {
    let mut window = ProfilerWindow::new(11, None);
    window.receive_foreground(vec![timing("a", 0, 1)]);
    assert!(window.export().is_none());
    window.set_workspace(1);
    assert_eq!(window.workspace, Some(1));
    assert!(window.export().is_some());
    window.receive_all_threads(vec![thread(vec![])]);
    assert!(window.export().is_none());
}

#[test]
fn scrolling_stops_following() {
    let mut window = ProfilerWindow::new(11, None);
    assert!(window.scrolled().notify);
    assert!(!window.autoscroll);
    assert!(window.follow_end(true));
    assert!(window.autoscroll);
    assert!(!window.follow_end(false));
    assert!(!window.autoscroll);
}

#[test]
fn short_and_own_timings_get_no_bar() {
    let mut window = ProfilerWindow::new(11, None);
    window.receive_foreground(vec![
        timing("a.rs", 0, NANOS_PER_MS - 1),
        timing("b.rs", 1, NANOS_PER_MS),
        timing("x/miniprofiler_ui.rs", 2, NANOS_PER_MS),
        timing("miniprofiler_ui.rs.bak", 3, 5 * NANOS_PER_MS),
    ]);
    let timeline = window.timeline().unwrap();
    assert_eq!(
        files(&timeline.timings),
        vec!["b.rs", "miniprofiler_ui.rs.bak"]
    );
    assert_eq!(timeline.window_start_nanos, 0);
    assert_eq!(timeline.window_duration_nanos, 3 + 5 * NANOS_PER_MS);
    window.set_include_self_timings(ToggleState::Indeterminate);
    assert_eq!(window.timeline().unwrap().timings.len(), 2);
    window.set_include_self_timings(ToggleState::Selected);
    assert_eq!(
        files(&window.timeline().unwrap().timings),
        vec!["b.rs", "x/miniprofiler_ui.rs", "miniprofiler_ui.rs.bak"]
    );
}

#[test]
fn the_bars_cover_ten_seconds_at_most() {
    let second = 1000 * NANOS_PER_MS;
    let covered = |timings: Vec<SerializedTaskTiming>| {
        let mut window = ProfilerWindow::new(11, None);
        window.receive_foreground(timings);
        let timeline = window.timeline().unwrap();
        (timeline.window_start_nanos, timeline.window_duration_nanos)
    };
    assert_eq!(
        covered(vec![timing("a", second, 0), timing("b", 20 * second, second)]),
        (11 * second, 10 * second)
    );
    assert_eq!(
        covered(vec![timing("a", 15 * second, 0), timing("b", 20 * second, second)]),
        (15 * second, 6 * second)
    );
    assert_eq!(covered(vec![timing("a", 7, 0)]), (7, 1));
    assert_eq!(covered(vec![timing("a", 9, 0), timing("b", 3, 1)]), (9, 1));
}

#[test]
fn bars_begin_in_the_window() {
    let bar = TimingBar::of(&timing("/src/dir\\file.rs", 10, 5));
    let layout = bar.layout(4);
    assert_eq!(layout.label, "file.rs:1:2");
    assert_eq!(layout.start_offset_nanos, 6);
    assert_eq!(layout.end_offset_nanos, 11);
    let layout = bar.layout(12);
    assert_eq!(layout.start_offset_nanos, 0);
    assert_eq!(layout.end_offset_nanos, 3);
    let layout = bar.layout(20);
    assert_eq!(layout.start_offset_nanos, 0);
    assert_eq!(layout.end_offset_nanos, 0);
}

#[test]
fn the_profiler_window_is_opened_once() {
    match open_performance_profiler(&vec![None, Some(5), None, Some(6)], 11, 9) {
        ProfilerAction::Activate { window, workspace } => assert_eq!((window, workspace), (5, 9)),
        other => panic!("unexpected action {:?}", other),
    }
    match open_performance_profiler(&vec![None, None], 11, 9) {
        ProfilerAction::Open {
            options,
            startup_time,
            workspace,
        } => {
            assert_eq!((startup_time, workspace), (11, 9));
            assert_eq!(options.title, "Profiler Window");
            assert_eq!((options.width, options.height), (1280, 720));
        }
        other => panic!("unexpected action {:?}", other),
    }
}
