use voxel_chunks::debug::debug_info::fps_color_index;
use voxel_chunks::debug::debug_info::FPS_COLORS;
use voxel_chunks::debug::format_grouped_lines::format_grouped_lines;
use voxel_chunks::debug::format_grouped_lines::root_string;
use voxel_chunks::debug::format_grouped_lines::short_string;
use voxel_chunks::debug::format_grouped_lines::sort_items;
use voxel_chunks::debug::runtime_profiler::RuntimeProfiler;
use voxel_chunks::debug::runtime_reporter::ReportItem;
use voxel_chunks::debug::runtime_reporter::RuntimeReporter;
use voxel_chunks::debug::runtime_reporter::REPORT_COOLDOWN;
use voxel_chunks::debug::runtime_storage::RuntimeStorage;

fn item(name: &str, last: u128, avg: u128) -> ReportItem {
    ReportItem { name: name.to_string(), last, avg }
}

fn names(items: &[ReportItem]) -> Vec<String> {
    items.iter().map(|i| i.name.clone()).collect()
}

#[test]
fn storage_adds_up_the_runs_of_a_span() {
    let mut storage = RuntimeStorage::new();
    assert_eq!(storage.len(), 0);
    storage.push("frame".to_string(), 10);
    storage.push("physics".to_string(), 3);
    storage.push("frame".to_string(), 5);
    assert_eq!(storage.len(), 2);
    let frame = storage.get(0);
    assert_eq!((frame.name.as_str(), frame.total, frame.count, frame.last), ("frame", 15, 2, 5));
    let physics = storage.get(1);
    assert_eq!((physics.name.as_str(), physics.total, physics.count, physics.last), ("physics", 3, 1, 3));
}

#[test]
fn storage_totals_stop_at_the_largest_time() {
    let mut storage = RuntimeStorage::new();
    storage.push("a".to_string(), u128::MAX - 1);
    storage.push("a".to_string(), 7);
    assert_eq!(storage.get(0).total, u128::MAX);
    assert_eq!(storage.get(0).count, 2);
    assert_eq!(storage.get(0).last, 7);
}

#[test]
fn reporter_reports_only_below_the_target_frame_rate() {
    let mut storage = RuntimeStorage::new();
    storage.push("a".to_string(), 1);
    let mut reporter = RuntimeReporter::new();
    assert!(reporter.report(&storage, 60, 0).is_none());
    assert!(reporter.report(&storage, 144, 0).is_none());
    assert!(reporter.report(&storage, 59, 0).is_some());
}

#[test]
fn reporter_reports_nothing_without_records() {
    let storage = RuntimeStorage::new();
    let mut reporter = RuntimeReporter::new();
    assert!(reporter.report(&storage, 10, 0).is_none());
}

#[test]
fn reporter_waits_for_the_cooldown() {
    let mut storage = RuntimeStorage::new();
    storage.push("a".to_string(), 1);
    let mut reporter = RuntimeReporter::new();
    assert!(reporter.report(&storage, 30, 1_000).is_some());
    assert!(reporter.report(&storage, 30, 1_000).is_none());
    assert!(reporter.report(&storage, 30, 1_000 + REPORT_COOLDOWN - 1).is_none());
    // a clock that runs backwards does not count as waiting
    assert!(reporter.report(&storage, 30, 10).is_none());
    assert!(reporter.report(&storage, 30, 1_000 + REPORT_COOLDOWN).is_some());
    // a refused report does not start the cooldown anew
    assert!(reporter.report(&storage, 90, 1_000 + 2 * REPORT_COOLDOWN).is_none());
    assert!(reporter.report(&storage, 30, 1_000 + 2 * REPORT_COOLDOWN).is_some());
}

#[test]
fn report_lists_the_longest_last_run_first_with_means() {
    let mut storage = RuntimeStorage::new();
    storage.push("short".to_string(), 4);
    storage.push("long".to_string(), 100);
    storage.push("long".to_string(), 50);
    storage.push("middle".to_string(), 20);
    storage.push("second".to_string(), 20);
    storage.push("short".to_string(), 1);
    let mut reporter = RuntimeReporter::new();
    let report = reporter.report(&storage, 20, 0).unwrap();
    assert_eq!(names(&report), vec!["long", "middle", "second", "short"]);
    assert_eq!((report[0].last, report[0].avg), (50, 75));
    assert_eq!((report[1].last, report[1].avg), (20, 20));
    assert_eq!((report[3].last, report[3].avg), (1, 2));
}

#[test]
fn flush_clears_the_storage_only_when_it_reports() {
    let mut storage = RuntimeStorage::new();
    let mut reporter = RuntimeReporter::new();
    storage.push("a".to_string(), 1);
    assert!(storage.flush(&mut reporter, 60, 0).is_none());
    assert_eq!(storage.len(), 1);
    let report = storage.flush(&mut reporter, 12, 0).unwrap();
    assert_eq!(names(&report), vec!["a"]);
    assert_eq!(storage.len(), 0);
    storage.push("b".to_string(), 1);
    assert!(storage.flush(&mut reporter, 12, 5).is_none());
    assert_eq!(storage.len(), 1);
}

#[test]
fn profiler_measures_from_span_to_finish() {
    let mut profiler = RuntimeProfiler::new();
    let span = profiler.span("mesh".to_string(), 100);
    assert_eq!(span.name, "mesh");
    assert_eq!(profiler.finish(&"other".to_string(), 120), None);
    assert_eq!(profiler.finish(&"mesh".to_string(), 250), Some(150));
    assert_eq!(profiler.finish(&"mesh".to_string(), 300), None);
}

#[test]
fn profiler_restarts_a_span_that_is_running() {
    let mut profiler = RuntimeProfiler::new();
    profiler.span("a".to_string(), 10);
    profiler.span("b".to_string(), 20);
    profiler.span("a".to_string(), 30);
    assert_eq!(profiler.finish(&"a".to_string(), 35), Some(5));
    assert_eq!(profiler.finish(&"b".to_string(), 35), Some(15));
    // an end before the beginning counts as no time at all
    profiler.span("c".to_string(), 50);
    assert_eq!(profiler.finish(&"c".to_string(), 40), Some(0));
}

#[test]
fn span_end_takes_down_the_time_in_the_storage() {
    let mut profiler = RuntimeProfiler::new();
    let mut storage = RuntimeStorage::new();
    let span = profiler.span("tick".to_string(), 1_000);
    span.end(&mut profiler, &mut storage, 1_700);
    assert_eq!(storage.len(), 1);
    assert_eq!((storage.get(0).total, storage.get(0).count), (700, 1));
    let again = profiler.span("tick".to_string(), 2_000);
    assert_eq!(profiler.finish(&"tick".to_string(), 2_100), Some(100));
    // the span was ended behind its back: nothing more is taken down
    again.end(&mut profiler, &mut storage, 2_500);
    assert_eq!((storage.get(0).total, storage.get(0).count), (700, 1));
}

#[test]
fn root_and_last_part_of_a_name() {
    assert_eq!(root_string(&"world::chunks::mesh".to_string()), "world");
    assert_eq!(short_string(&"world::chunks::mesh".to_string()), "mesh");
    assert_eq!(root_string(&"plain".to_string()), "plain");
    assert_eq!(short_string(&"plain".to_string()), "plain");
    assert_eq!(root_string(&"".to_string()), "");
    assert_eq!(short_string(&"a::".to_string()), "");
    assert_eq!(root_string(&"::a".to_string()), "");
    assert_eq!(root_string(&"a:b::c".to_string()), "a:b");
    // separators are read from the left, each behind the one before
    assert_eq!(root_string(&"a:::b".to_string()), "a");
    assert_eq!(short_string(&"a:::b".to_string()), ":b");
    assert_eq!(short_string(&"é::ü".to_string()), "ü");
}

#[test]
fn sort_items_keeps_the_order_of_equal_times() {
    let sorted = sort_items(vec![item("a", 1, 0), item("b", 3, 0), item("c", 1, 0), item("d", 3, 0)]);
    assert_eq!(names(&sorted), vec!["b", "d", "a", "c"]);
}

#[test]
fn lines_are_grouped_by_the_first_part_of_their_names() {
    let items = vec![
        item("world::load", 5, 4),
        item("world", 10, 8),
        item("net::recv::parse", 7, 6),
        item("net::send", 9, 1),
        item("ui", 10, 2),
    ];
    let groups = format_grouped_lines(&items);
    assert_eq!(groups.len(), 3);
    assert_eq!((groups[0].root.as_str(), groups[0].last, groups[0].avg), ("world", 10, 8));
    assert_eq!((groups[1].root.as_str(), groups[1].last, groups[1].avg), ("ui", 10, 2));
    // no span is called "net": the group has no times of its own
    assert_eq!((groups[2].root.as_str(), groups[2].last, groups[2].avg), ("net", 0, 0));
    assert_eq!(groups[0].children.len(), 1);
    assert_eq!(groups[0].children[0].name, "load");
    assert_eq!((groups[0].children[0].last, groups[0].children[0].avg), (5, 4));
    assert!(groups[1].children.is_empty());
    let net: Vec<(&str, u128)> = groups[2].children.iter().map(|c| (c.name.as_str(), c.last)).collect();
    assert_eq!(net, vec![("send", 9), ("parse", 7)]);
}

#[test]
fn a_report_shows_ten_groups_of_five_lines_at_most() {
    let mut items = Vec::new();
    for g in 0..12u128 {
        items.push(item(&format!("g{}", g), 100 + g, 1));
        for c in 0..7u128 {
            items.push(item(&format!("g{}::c{}", g, c), c, 1));
        }
    }
    let groups = format_grouped_lines(&items);
    assert_eq!(groups.len(), 10);
    assert_eq!(groups[0].root, "g11");
    assert_eq!(groups[9].root, "g2");
    for group in groups.iter() {
        let shown: Vec<&str> = group.children.iter().map(|c| c.name.as_str()).collect();
        assert_eq!(shown, vec!["c6", "c5", "c4", "c3", "c2"]);
    }
}

#[test]
fn no_lines_give_no_groups() {
    assert!(format_grouped_lines(&Vec::new()).is_empty());
}

#[test]
fn frame_rate_colour_goes_by_the_tens() {
    assert_eq!(FPS_COLORS, 6);
    assert_eq!(fps_color_index(0), 0);
    assert_eq!(fps_color_index(1), 0);
    assert_eq!(fps_color_index(2), 0);
    assert_eq!(fps_color_index(3), 1);
    assert_eq!(fps_color_index(6), 4);
    assert_eq!(fps_color_index(7), 5);
    assert_eq!(fps_color_index(8), 5);
    assert_eq!(fps_color_index(14), 5);
    assert_eq!(fps_color_index(-3), 0);
    assert_eq!(fps_color_index(i64::MIN), 0);
    assert_eq!(fps_color_index(i64::MAX), 5);
}
