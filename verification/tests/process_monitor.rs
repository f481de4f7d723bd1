use noa_app::overlay::{overlay_scroll_window, process_monitor_view_model, sync_slot, NativeOverlayCache};
use noa_app::process_monitor::{
    build_rows, format_cpu, format_elapsed, format_mem, format_proc_count, format_process,
    visible_window, MonitorRow, PaneMetrics, ProcessMonitor, SessionCard, SessionCardId, SortKey,
};

const SECOND: u64 = 1_000_000_000;

fn id(window: u64, pane: u64) -> SessionCardId {
    SessionCardId { window_id: window, pane_id: pane }
}

fn row(window: u64, pane: u64, process: Option<&str>, cpu: Option<u32>, mem: Option<u64>) -> MonitorRow {
    MonitorRow {
        id: id(window, pane),
        process: process.map(str::to_string),
        cpu_permille: cpu,
        mem_bytes: mem,
        proc_count: mem.map(|_| 1),
        started_at: None,
        location: format!("w{window}p{pane}"),
    }
}

fn card(name: &str, process: &str) -> SessionCard {
    SessionCard { display_name: name.to_string(), process: Some(process.to_string()), metrics: None }
}

#[test]
fn build_rows_produces_one_row_per_live_pane() {
    let c = card("repo", "zsh");
    let ids = [id(1, 1), id(1, 2), id(2, 1)];
    let cards: Vec<(SessionCardId, &SessionCard)> = ids.iter().map(|i| (*i, &c)).collect();
    let rows = build_rows(&cards);
    assert_eq!(rows.len(), 3);
    assert_eq!(rows[0].id, id(1, 1));
    assert_eq!(rows[2].id, id(2, 1));
}

#[test]
fn build_rows_fills_every_field_and_locations_use_per_window_ordinals() {
    let c = card("repo", "vim");
    let ids = [id(1, 1), id(1, 2), id(2, 1)];
    let cards: Vec<(SessionCardId, &SessionCard)> = ids.iter().map(|i| (*i, &c)).collect();
    let rows = build_rows(&cards);
    assert_eq!(rows[0].location, "repo \u{b7} pane 1");
    assert_eq!(rows[1].location, "repo \u{b7} pane 2");
    assert_eq!(rows[2].location, "repo \u{b7} pane 1");
    assert_eq!(rows[0].process.as_deref(), Some("vim"));
}

#[test]
fn build_rows_copies_a_cards_metrics_into_its_row() {
    let c = SessionCard {
        display_name: "repo".to_string(),
        process: None,
        metrics: Some(PaneMetrics {
            cpu_permille: Some(250),
            mem_bytes: 4096,
            proc_count: 3,
            started_at: Some(7),
        }),
    };
    let rows = build_rows(&[(id(4, 2), &c)]);
    assert_eq!(rows[0].cpu_permille, Some(250));
    assert_eq!(rows[0].mem_bytes, Some(4096));
    assert_eq!(rows[0].proc_count, Some(3));
    assert_eq!(rows[0].started_at, Some(7));
    assert_eq!(rows[0].process, None);
}

#[test]
fn cycle_sort_walks_cpu_mem_name_and_back() {
    assert_eq!(SortKey::CpuDesc.next(), SortKey::MemDesc);
    assert_eq!(SortKey::MemDesc.next(), SortKey::NameAsc);
    assert_eq!(SortKey::NameAsc.next(), SortKey::CpuDesc);
}

#[test]
fn process_monitor_default_sort_is_cpu_descending_and_cycles() {
    let rows = vec![
        row(1, 1, Some("b"), Some(100), Some(200)),
        row(1, 2, Some("a"), Some(500), Some(100)),
        row(1, 3, Some("c"), Some(300), Some(300)),
    ];
    let mut monitor = ProcessMonitor::open(rows);
    assert_eq!(monitor.sort(), SortKey::CpuDesc);
    assert_eq!(
        monitor.rows().iter().map(|r| r.id).collect::<Vec<_>>(),
        vec![id(1, 2), id(1, 3), id(1, 1)]
    );
    monitor.cycle_sort();
    assert_eq!(monitor.sort(), SortKey::MemDesc);
    assert_eq!(
        monitor.rows().iter().map(|r| r.id).collect::<Vec<_>>(),
        vec![id(1, 3), id(1, 1), id(1, 2)]
    );
    monitor.cycle_sort();
    assert_eq!(monitor.sort(), SortKey::NameAsc);
    assert_eq!(
        monitor.rows().iter().map(|r| r.id).collect::<Vec<_>>(),
        vec![id(1, 2), id(1, 1), id(1, 3)]
    );
    monitor.cycle_sort();
    assert_eq!(monitor.sort(), SortKey::CpuDesc);
}

#[test]
fn none_metrics_sort_last_under_every_key_and_never_panics() {
    let rows = vec![row(1, 1, Some("b"), None, None), row(1, 2, Some("a"), Some(500), Some(100))];
    let monitor = ProcessMonitor::open(rows);
    assert_eq!(monitor.rows()[0].id, id(1, 2));
    assert_eq!(monitor.rows()[1].id, id(1, 1));
    let mut monitor = monitor;
    monitor.refresh(vec![row(1, 3, Some("c"), Some(1), Some(1))]);
    assert_eq!(monitor.selected(), 0);
    assert_eq!(monitor.selected_id(), Some(id(1, 3)));
}

#[test]
fn equal_keys_keep_their_arrival_order() {
    let rows = vec![
        row(1, 1, Some("x"), Some(100), Some(1)),
        row(1, 2, Some("y"), Some(100), Some(1)),
        row(1, 3, Some("z"), Some(100), Some(1)),
    ];
    let monitor = ProcessMonitor::open(rows);
    assert_eq!(
        monitor.rows().iter().map(|r| r.id).collect::<Vec<_>>(),
        vec![id(1, 1), id(1, 2), id(1, 3)]
    );
}

#[test]
fn selection_is_preserved_across_refresh_and_move_clamps() {
    let rows = vec![row(1, 1, Some("a"), Some(100), Some(1)), row(1, 2, Some("b"), Some(200), Some(1))];
    let mut monitor = ProcessMonitor::open(rows);
    assert_eq!(monitor.selected_id(), Some(id(1, 2)));
    monitor.move_selection(1);
    assert_eq!(monitor.selected_id(), Some(id(1, 1)));
    monitor.move_selection(1);
    assert_eq!(monitor.selected_id(), Some(id(1, 1)));
    monitor.refresh(vec![
        row(1, 1, Some("a"), Some(100), Some(1)),
        row(1, 2, Some("b"), Some(200), Some(1)),
    ]);
    assert_eq!(monitor.selected_id(), Some(id(1, 1)));
    let mut empty = ProcessMonitor::open(Vec::new());
    empty.move_selection(1);
    empty.move_selection(-1);
    assert_eq!(empty.selected_id(), None);
}

#[test]
fn move_selection_clamps_at_the_top_too() {
    let rows = vec![row(1, 1, Some("a"), Some(100), Some(1)), row(1, 2, Some("b"), Some(200), Some(1))];
    let mut monitor = ProcessMonitor::open(rows);
    monitor.move_selection(-5);
    assert_eq!(monitor.selected(), 0);
    monitor.move_selection(i32::MAX);
    assert_eq!(monitor.selected(), 1);
    monitor.move_selection(i32::MIN);
    assert_eq!(monitor.selected(), 0);
}

#[test]
fn formatters_degrade_to_em_dash_when_absent() {
    assert_eq!(format_cpu(None), "\u{2014}");
    assert_eq!(format_mem(None), "\u{2014}");
    assert_eq!(format_proc_count(None), "\u{2014}");
    assert_eq!(format_elapsed(None, 0), "\u{2014}");
    assert_eq!(format_process(None), "\u{2014}");
}

#[test]
fn visible_window_keeps_the_selection_visible() {
    assert_eq!(visible_window(5, 4, 10), (0, 5));
    assert_eq!(visible_window(20, 0, 10), (0, 10));
    let (offset, shown) = visible_window(20, 10, 10);
    assert!(offset <= 10 && 10 < offset + shown);
    let (offset, shown) = visible_window(20, 19, 10);
    assert_eq!((offset, shown), (10, 10));
    assert!(offset <= 19 && 19 < offset + shown);
}

#[test]
fn format_cpu_rounds_permille_to_nearest_percent() {
    assert_eq!(format_cpu(Some(0)), "0%");
    assert_eq!(format_cpu(Some(1420)), "142%");
    assert_eq!(format_cpu(Some(995)), "100%");
}

#[test]
fn format_mem_switches_units_at_the_gb_boundary() {
    assert_eq!(format_mem(Some(512 * 1024 * 1024)), "512 MB");
    assert_eq!(format_mem(Some(1024 * 1024 * 1024 - 1)), "1024 MB");
    assert_eq!(format_mem(Some(1024 * 1024 * 1024)), "1.00 GB");
    assert_eq!(format_mem(Some(1024 * 1024 * 1024 * 3 / 2)), "1.50 GB");
}

#[test]
fn format_mem_matches_float_formatting_on_ties_and_large_values() {
    let mib = 1024.0 * 1024.0;
    let gib = mib * 1024.0;
    let cases: [u64; 12] = [
        0,
        1,
        524_288,
        1_572_864,
        2_621_440,
        3 * 1024 * 1024 / 2,
        1024 * 1024 * 1024 + 5 * 1024 * 1024 * 1024 / 1000,
        1_079_741_824,
        5_368_709_120,
        u64::MAX / 3,
        u64::MAX - 1,
        u64::MAX,
    ];
    for b in cases {
        let expected = if (b as f64) < gib {
            format!("{:.0} MB", b as f64 / mib)
        } else {
            format!("{:.2} GB", b as f64 / gib)
        };
        assert_eq!(format_mem(Some(b)), expected, "bytes {b}");
    }
}

#[test]
fn format_elapsed_rolls_over_at_one_hour() {
    let start = 0;
    assert_eq!(format_elapsed(Some(start), start + 5 * SECOND), "0:05");
    assert_eq!(format_elapsed(Some(start), start + 3599 * SECOND), "59:59");
    assert_eq!(format_elapsed(Some(start), start + 3600 * SECOND), "1:00:00");
}

#[test]
fn format_elapsed_of_a_future_start_is_zero() {
    assert_eq!(format_elapsed(Some(10 * SECOND), 0), "0:00");
}

#[test]
fn format_process_shows_the_name_when_known() {
    assert_eq!(format_process(Some("vim")), "vim");
}

#[test]
fn scroll_window_clamps_and_centers() {
    assert_eq!(overlay_scroll_window(5, 2, 12), (0, 5));
    assert_eq!(overlay_scroll_window(40, 20, 12), (14, 12));
    assert_eq!(overlay_scroll_window(40, 0, 12), (0, 12));
    assert_eq!(overlay_scroll_window(40, 39, 12), (28, 12));
}

#[test]
fn view_model_marks_the_selection_inside_the_scroll_window() {
    let rows: Vec<MonitorRow> = (0..15u64)
        .map(|p| row(1, p, Some("sh"), Some(1000 - p as u32), Some(1)))
        .collect();
    let mut monitor = ProcessMonitor::open(rows);
    monitor.move_selection(12);
    let vm = process_monitor_view_model(&monitor, 0);
    assert_eq!(vm.sort_label, "CPU");
    assert_eq!(vm.rows.len(), 10);
    // 15 rows, selection 12, capacity 10: the window is rows 5..15.
    assert_eq!(vm.rows[0].location, "w1p5");
    assert!(vm.rows[7].selected);
    assert_eq!(vm.rows.iter().filter(|r| r.selected).count(), 1);
    assert_eq!(vm.rows[7].cpu, "99%");
    assert_eq!(vm.rows[7].elapsed, "\u{2014}");
}

#[test]
fn an_overlay_rebuilds_only_when_its_model_hash_changes() {
    let mut cache = NativeOverlayCache::default();
    assert!(sync_slot(&mut cache.process_monitor, Some(42)), "first show rebuilds");
    assert!(!sync_slot(&mut cache.process_monitor, Some(42)), "same model is a no-op");
    assert!(sync_slot(&mut cache.process_monitor, Some(43)), "a changed model rebuilds");
    assert!(sync_slot(&mut cache.process_monitor, None), "hiding rebuilds");
    assert!(!sync_slot(&mut cache.process_monitor, None), "staying hidden is a no-op");
    assert_eq!(cache.palette, None);
}

fn in_order(m: &ProcessMonitor) -> bool {
    let rows = m.rows();
    rows.windows(2).all(|pair| match m.sort() {
        SortKey::CpuDesc => match (pair[0].cpu_permille, pair[1].cpu_permille) {
            (Some(a), Some(b)) => a >= b,
            (None, Some(_)) => false,
            _ => true,
        },
        SortKey::MemDesc => match (pair[0].mem_bytes, pair[1].mem_bytes) {
            (Some(a), Some(b)) => a >= b,
            (None, Some(_)) => false,
            _ => true,
        },
        SortKey::NameAsc => match (&pair[0].process, &pair[1].process) {
            (Some(a), Some(b)) => a <= b,
            (None, Some(_)) => false,
            _ => true,
        },
    })
}

#[test]
fn rows_stay_in_order_across_any_sequence_of_calls() {
    let rows = vec![
        row(1, 1, Some("vim"), Some(5), None),
        row(1, 2, None, Some(90), Some(10)),
        row(2, 1, Some("cargo"), None, Some(500)),
        row(2, 2, Some("zsh"), Some(40), Some(7)),
    ];
    let mut m = ProcessMonitor::open(rows.clone());
    assert!(in_order(&m));
    m.move_selection(2);
    assert!(in_order(&m));
    m.cycle_sort();
    assert!(in_order(&m));
    m.refresh(vec![row(3, 1, Some("b"), Some(1), Some(2)), row(3, 2, Some("a"), None, None)]);
    assert!(in_order(&m));
    m.cycle_sort();
    assert!(in_order(&m));
    assert_eq!(m.sort(), SortKey::NameAsc);
    m.cycle_sort();
    m.refresh(rows);
    assert!(in_order(&m));
}

#[test]
fn cpu_labels_round_every_permille_without_overflow() {
    assert_eq!(format_cpu(Some(u32::MAX)), "429496730%");
    assert_eq!(format_cpu(Some(u32::MAX - 4)), "429496729%");
    assert_eq!(format_cpu(Some(4)), "0%");
    assert_eq!(format_cpu(Some(5)), "1%");
}
