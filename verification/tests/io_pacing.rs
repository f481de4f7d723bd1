use noa_app::ipc_grid::{grid_row_window, GridWindow, MAX_GRID_ROWS_PER_REQUEST};
use noa_app::latency::{LatencyReport, LatencySample};
use noa_app::io_loop::{
    drain_step, keep_draining, DrainEvent, DrainStep, IoDeadlines, PtyDrainTerminalEvent,
    PTY_DATA_DRAIN_BYTE_LIMIT,
};
use noa_app::redraw::{
    decide_redraw, redraw_floor_from_refresh_millihertz, RedrawDecision, RedrawFloor,
    MILLISECOND, REDRAW_MIN_INTERVAL, SYNCHRONIZED_OUTPUT_MAX_SUPPRESSION,
};
use noa_app::throttle::{
    auto_approve_rescan_deadline, decide_ipc_output_push, decide_overview_publish,
    decide_sidebar_publish, IpcOutputPushDecision, IpcRowCache, OverviewPublishDecision,
    SpinTraffic, AUTO_APPROVE_STABILITY_RESCAN_DELAY, HOT_SPIN_WINDOW, OUTPUT_PUSH_MIN_INTERVAL,
};

/// A fixed starting instant, in nanoseconds on the monotonic clock.
const T0: u64 = 10_000_000_000;

/// The overview tile's minimum render interval used by these scenarios.
const OVERVIEW_TILE_MIN_RENDER_INTERVAL: u64 = 50 * MILLISECOND;

const MICROSECOND: u64 = 1_000;

#[test]
fn decide_sidebar_publish_throttles() {
    let now = T0;
    let interval = OVERVIEW_TILE_MIN_RENDER_INTERVAL;
    // First feed publishes.
    assert!(decide_sidebar_publish(None, now, interval));
    // Inside the throttle window: skip.
    assert!(!decide_sidebar_publish(Some(now - interval / 2), now, interval));
    // Past the throttle window: publish.
    assert!(decide_sidebar_publish(Some(now - interval), now, interval));
}

#[test]
fn synchronized_output_redraw_is_capped_so_a_held_frame_cannot_freeze() {
    let now = T0;
    let last_paint = now - SYNCHRONIZED_OUTPUT_MAX_SUPPRESSION;
    assert_eq!(
        decide_redraw(true, Some(last_paint), now),
        RedrawDecision::Now,
        "a frame held past the cap must repaint"
    );
    // Never painted yet: paint now rather than start life frozen.
    assert_eq!(decide_redraw(true, None, now), RedrawDecision::Now);
    // Within the cap: hold, but arm the deadline at exactly cap-since-paint.
    let recent = now - SYNCHRONIZED_OUTPUT_MAX_SUPPRESSION / 2;
    assert_eq!(
        decide_redraw(true, Some(recent), now),
        RedrawDecision::Suppress { deadline: recent + SYNCHRONIZED_OUTPUT_MAX_SUPPRESSION }
    );
}

#[test]
fn unsynchronized_redraws_are_floored_to_the_min_interval() {
    let now = T0;
    assert_eq!(decide_redraw(false, None, now), RedrawDecision::Now);
    assert_eq!(decide_redraw(false, Some(now - REDRAW_MIN_INTERVAL), now), RedrawDecision::Now);
    let recent = now - REDRAW_MIN_INTERVAL / 2;
    assert_eq!(
        decide_redraw(false, Some(recent), now),
        RedrawDecision::Suppress { deadline: recent + REDRAW_MIN_INTERVAL }
    );
}

#[test]
fn redraw_floor_from_refresh_millihertz_derives_the_period_and_clamps() {
    // 120Hz → ~8.33ms.
    assert_eq!(redraw_floor_from_refresh_millihertz(Some(120_000)), 1_000_000_000_000 / 120_000);
    // 60Hz → ~16.67ms.
    assert_eq!(redraw_floor_from_refresh_millihertz(Some(60_000)), 1_000_000_000_000 / 60_000);
    // Unknown or nonsensical (0Hz) rates fall back to the constant.
    assert_eq!(redraw_floor_from_refresh_millihertz(None), REDRAW_MIN_INTERVAL);
    assert_eq!(redraw_floor_from_refresh_millihertz(Some(0)), REDRAW_MIN_INTERVAL);
    // Implausibly high/low reported rates clamp.
    assert_eq!(redraw_floor_from_refresh_millihertz(Some(10_000_000)), 4 * MILLISECOND);
    assert_eq!(redraw_floor_from_refresh_millihertz(Some(1)), 33 * MILLISECOND);
}

#[test]
fn redraw_floor_decide_is_shared_across_clones_of_the_same_window() {
    let floor = RedrawFloor::new(10 * MILLISECOND);
    let pane_a = floor.clone();
    let pane_b = floor.clone();
    let t0 = T0;
    assert_eq!(pane_a.decide(false, t0), RedrawDecision::Now);
    let t1 = t0 + 2 * MILLISECOND;
    assert_eq!(
        pane_b.decide(false, t1),
        RedrawDecision::Suppress { deadline: t0 + 10 * MILLISECOND }
    );
}

#[test]
fn redraw_floor_set_min_interval_is_visible_to_every_clone() {
    let floor = RedrawFloor::new(10 * MILLISECOND);
    let other_pane = floor.clone();
    floor.set_min_interval(20 * MILLISECOND);
    let t0 = T0;
    assert_eq!(other_pane.decide(false, t0), RedrawDecision::Now);
    let t1 = t0 + 15 * MILLISECOND;
    assert_eq!(
        other_pane.decide(false, t1),
        RedrawDecision::Suppress { deadline: t0 + 20 * MILLISECOND },
        "the widened interval set on one clone must apply to another"
    );
}

#[test]
fn redraw_floor_claim_deadline_lets_only_one_pane_through() {
    let floor = RedrawFloor::new(10 * MILLISECOND);
    let pane_a = floor.clone();
    let pane_b = floor.clone();
    let pane_c = floor.clone();
    let deadline = T0;
    assert!(pane_a.claim_deadline(deadline), "first claim wins");
    assert!(!pane_b.claim_deadline(deadline), "same instant already claimed");
    assert!(!pane_c.claim_deadline(deadline), "same instant already claimed");
    // A genuinely later redraw can still be claimed afterward.
    assert!(pane_b.claim_deadline(deadline + MILLISECOND));
}

#[test]
fn redraw_floor_input_echo_bypasses_the_floor() {
    let floor = RedrawFloor::new(10 * MILLISECOND);
    let t0 = T0;
    assert_eq!(floor.decide(false, t0), RedrawDecision::Now);
    let t1 = t0 + 2 * MILLISECOND;
    assert!(matches!(floor.decide(false, t1), RedrawDecision::Suppress { .. }));
    assert_eq!(floor.decide_input_echo(false, t1), RedrawDecision::Now);
}

#[test]
fn redraw_floor_input_echo_records_on_the_shared_clock() {
    let floor = RedrawFloor::new(10 * MILLISECOND);
    let sibling = floor.clone();
    let t0 = T0;
    assert_eq!(floor.decide_input_echo(false, t0), RedrawDecision::Now);
    let t1 = t0 + 2 * MILLISECOND;
    assert_eq!(
        sibling.decide(false, t1),
        RedrawDecision::Suppress { deadline: t0 + 10 * MILLISECOND }
    );
}

#[test]
fn redraw_floor_input_echo_does_not_bypass_synchronized_output() {
    let floor = RedrawFloor::new(10 * MILLISECOND);
    let t0 = T0;
    assert_eq!(floor.decide(false, t0), RedrawDecision::Now);
    let t1 = t0 + 2 * MILLISECOND;
    assert_eq!(
        floor.decide_input_echo(true, t1),
        RedrawDecision::Suppress { deadline: t0 + SYNCHRONIZED_OUTPUT_MAX_SUPPRESSION }
    );
}

#[test]
fn decide_overview_publish_skips_when_not_visible_regardless_of_timing() {
    let now = T0;
    let interval = OVERVIEW_TILE_MIN_RENDER_INTERVAL;
    assert_eq!(decide_overview_publish(false, None, now, interval), OverviewPublishDecision::Skip);
    assert_eq!(
        decide_overview_publish(false, Some(now - interval * 10), now, interval),
        OverviewPublishDecision::Skip
    );
}

#[test]
fn decide_overview_publish_publishes_on_first_feed_and_when_due() {
    let now = T0;
    let interval = OVERVIEW_TILE_MIN_RENDER_INTERVAL;
    assert_eq!(decide_overview_publish(true, None, now, interval), OverviewPublishDecision::Publish);
    let due = now - interval;
    assert_eq!(
        decide_overview_publish(true, Some(due), now, interval),
        OverviewPublishDecision::Publish
    );
}

#[test]
fn decide_overview_publish_schedules_a_trailing_flush_when_throttled() {
    let now = T0;
    let interval = OVERVIEW_TILE_MIN_RENDER_INTERVAL;
    let last = now - interval / 2;
    assert_eq!(
        decide_overview_publish(true, Some(last), now, interval),
        OverviewPublishDecision::ScheduleTrailingFlush { deadline: last + interval }
    );
}

#[test]
fn spin_traffic_arms_on_small_recent_traffic_and_expires() {
    let t0 = T0;
    let mut traffic = SpinTraffic::new();
    assert!(!traffic.wants_spin(t0), "no traffic yet");
    traffic.record(t0, 32);
    assert!(traffic.wants_spin(t0 + HOT_SPIN_WINDOW / 2));
    assert!(!traffic.wants_spin(t0 + HOT_SPIN_WINDOW), "gone quiet");
}

#[test]
fn spin_traffic_stays_armed_through_a_sustained_query_reply_loop() {
    let mut traffic = SpinTraffic::new();
    let step = 50 * MICROSECOND;
    let mut now = T0;
    for _ in 0..2000 {
        traffic.record(now, 10);
        now += step;
    }
    assert!(traffic.wants_spin(now));
}

#[test]
fn spin_traffic_disarms_during_a_small_chunk_flood() {
    let mut traffic = SpinTraffic::new();
    let step = 20 * MICROSECOND;
    let mut now = T0;
    for _ in 0..8 {
        traffic.record(now, 1024);
        now += step;
    }
    assert!(!traffic.wants_spin(now));
}

#[test]
fn spin_traffic_bucket_rotation_carries_the_previous_window() {
    let t0 = T0;
    let mut traffic = SpinTraffic::new();
    traffic.record(t0, 64 * 1024);
    let t1 = t0 + HOT_SPIN_WINDOW + MICROSECOND;
    traffic.record(t1, 16);
    assert!(!traffic.wants_spin(t1));
}

#[test]
fn spin_traffic_resets_after_two_quiet_windows() {
    let t0 = T0;
    let mut traffic = SpinTraffic::new();
    traffic.record(t0, 1024 * 1024);
    let t1 = t0 + HOT_SPIN_WINDOW * 2;
    traffic.record(t1, 16);
    assert!(traffic.wants_spin(t1));
}

#[test]
fn ipc_output_push_is_skipped_without_a_subscriber_and_throttled_with_one() {
    let now = T0;
    assert_eq!(decide_ipc_output_push(false, None, now), IpcOutputPushDecision::Skip);
    assert_eq!(decide_ipc_output_push(true, None, now), IpcOutputPushDecision::Push);
    assert_eq!(
        decide_ipc_output_push(true, Some(now - OUTPUT_PUSH_MIN_INTERVAL), now),
        IpcOutputPushDecision::Push
    );
    let last = now - OUTPUT_PUSH_MIN_INTERVAL / 4;
    assert_eq!(
        decide_ipc_output_push(true, Some(last), now),
        IpcOutputPushDecision::ScheduleTrailingFlush { deadline: last + OUTPUT_PUSH_MIN_INTERVAL }
    );
}

#[test]
fn auto_approve_rescan_is_armed_only_when_the_prompt_needs_it() {
    assert_eq!(auto_approve_rescan_deadline(false, T0), None);
    assert_eq!(
        auto_approve_rescan_deadline(true, T0),
        Some(T0 + AUTO_APPROVE_STABILITY_RESCAN_DELAY)
    );
}

#[test]
fn row_cache_resends_changed_rows_and_everything_after_a_base_shift() {
    let mut cache = IpcRowCache::new();
    // First diff: every row is new.
    assert_eq!(cache.diff(100, &[1, 2, 3]), vec![0, 1, 2]);
    // Nothing changed: nothing resent.
    assert_eq!(cache.diff(100, &[1, 2, 3]), Vec::<usize>::new());
    // Only the changed slot is resent.
    assert_eq!(cache.diff(100, &[1, 9, 3]), vec![1]);
    // The viewport base moved: every slot is resent even with identical content.
    assert_eq!(cache.diff(101, &[1, 9, 3]), vec![0, 1, 2]);
    // A reset forgets every hash.
    cache.reset();
    assert_eq!(cache.diff(101, &[1, 9, 3]), vec![0, 1, 2]);
}

#[test]
fn idle_tick_settles_only_the_deadlines_that_came_due() {
    let floor = RedrawFloor::new(10 * MILLISECOND);
    let mut d = IoDeadlines::new();
    assert_eq!(d.next_deadline(), None);
    d.overview_flush_at = Some(T0 + 5 * MILLISECOND);
    d.ipc_flush_at = Some(T0 + 2 * MILLISECOND);
    d.rescan_at = Some(T0 + 9 * MILLISECOND);
    assert_eq!(d.next_deadline(), Some(T0 + 2 * MILLISECOND));

    // At T0 + 3ms only the IPC flush is due: no repaint for a side channel.
    let s = d.settle(T0 + 3 * MILLISECOND, &floor);
    assert!(s.flush_ipc && !s.flush_overview && !s.rescan_auto_approve && !s.redraw);
    assert!(s.any_elapsed);
    assert_eq!(d.ipc_flush_at, None);
    assert_eq!(d.next_deadline(), Some(T0 + 5 * MILLISECOND));

    // At T0 + 6ms the overview flush is due and repaints.
    let s = d.settle(T0 + 6 * MILLISECOND, &floor);
    assert!(s.flush_overview && s.redraw);
    assert_eq!(d.overview_flush_at, None);

    // The rescan stays armed until the caller re-arms it.
    let s = d.settle(T0 + 9 * MILLISECOND, &floor);
    assert!(s.rescan_auto_approve && !s.redraw);
    assert_eq!(d.rescan_at, Some(T0 + 9 * MILLISECOND));

    // Nothing due: park.
    d.rescan_at = None;
    let s = d.settle(T0 + 10 * MILLISECOND, &floor);
    assert!(!s.any_elapsed);
}

#[test]
fn a_withheld_redraw_is_fired_by_only_one_pane_of_the_window() {
    let floor = RedrawFloor::new(10 * MILLISECOND);
    let mut a = IoDeadlines::new();
    let mut b = IoDeadlines::new();
    a.redraw_at = Some(T0);
    b.redraw_at = Some(T0);
    let first = a.settle(T0, &floor);
    let second = b.settle(T0, &floor);
    assert!(first.redraw && first.claimed);
    assert!(!second.redraw && !second.claimed);
    assert!(second.any_elapsed);
    assert_eq!(b.redraw_at, None);
}

#[test]
fn after_feed_repaints_or_owes_a_repaint() {
    let floor = RedrawFloor::new(10 * MILLISECOND);
    let mut d = IoDeadlines::new();
    // A query-only batch paints nothing and keeps the echo pending.
    assert_eq!(d.after_feed(&floor, false, false, true, T0), (false, true));
    // The first real batch paints now.
    assert_eq!(d.after_feed(&floor, true, false, false, T0), (true, false));
    // A second one inside the floor is withheld and owes the deadline.
    assert_eq!(d.after_feed(&floor, true, false, false, T0 + MILLISECOND), (false, false));
    assert_eq!(d.redraw_at, Some(T0 + 10 * MILLISECOND));
    // An input echo bypasses the floor and clears the owed repaint.
    assert_eq!(d.after_feed(&floor, true, false, true, T0 + 2 * MILLISECOND), (true, false));
    assert_eq!(d.redraw_at, None);
}

#[test]
fn drain_stops_at_the_byte_limit_and_on_terminal_events() {
    assert!(keep_draining(0));
    assert!(!keep_draining(PTY_DATA_DRAIN_BYTE_LIMIT));
    assert_eq!(drain_step(10, DrainEvent::Data(5)), DrainStep::Continue(15));
    assert_eq!(drain_step(usize::MAX - 1, DrainEvent::Data(5)), DrainStep::Continue(usize::MAX));
    assert_eq!(drain_step(10, DrainEvent::Empty), DrainStep::Stop(None));
    assert_eq!(
        drain_step(10, DrainEvent::ExitOrError),
        DrainStep::Stop(Some(PtyDrainTerminalEvent::ExitOrError))
    );
    assert_eq!(
        drain_step(10, DrainEvent::Disconnected),
        DrainStep::Stop(Some(PtyDrainTerminalEvent::Disconnected))
    );
}

#[test]
fn grid_result_reports_tail_bounds_and_stable_rows_after_eviction() {
    // Rows 1_000..2_000 are held; the client asks for the last 48.
    let (oldest, next) = (1_000u64, 2_000u64);
    let tail_start = next.saturating_sub(48).max(oldest);
    let w = grid_row_window(tail_start, 48, oldest, next);
    assert_eq!(w, GridWindow { start: tail_start, end: next, has_more: false });
    // A request starting in the evicted prefix is lifted to the oldest row.
    let w = grid_row_window(10, 1_100, oldest, next);
    assert_eq!(w, GridWindow { start: oldest, end: 1_110, has_more: false });
}

#[test]
fn grid_result_applies_row_cap_after_the_evicted_prefix() {
    let oldest = 5_000u64;
    let next = 6_000u64;
    assert!(oldest > MAX_GRID_ROWS_PER_REQUEST);
    let w = grid_row_window(0, oldest + 1, oldest, next);
    assert_eq!((w.start, w.end, w.has_more), (oldest, oldest + 1, false));
}

#[test]
fn grid_requests_page_at_the_per_request_ceiling() {
    let w = grid_row_window(0, u64::MAX, 0, 10_000);
    assert_eq!((w.start, w.end, w.has_more), (0, MAX_GRID_ROWS_PER_REQUEST, true));
    // Past the held rows: nothing to read, nothing more.
    let w = grid_row_window(20_000, 5, 0, 10_000);
    assert_eq!((w.start, w.end, w.has_more), (10_000, 10_000, false));
}

#[test]
fn latency_sample_closes_on_the_first_frame_built_after_the_echo() {
    let mut s = LatencySample::new();
    // Nothing pending: a feed is not an echo, a present closes nothing.
    s.on_pty_feed(5);
    assert_eq!(s.echo_fed_at, 0);
    assert_eq!(s.on_present(6, 7), None);
    s.on_key_pressed(1_000_000);
    s.on_pty_feed(1_400_000);
    s.on_pty_feed(1_500_000);
    assert_eq!(s.echo_fed_at, 1_400_000);
    // A frame started before the echo was fed does not close it.
    assert_eq!(s.on_present(1_300_000, 1_350_000), None);
    // Tracing off (frame start 0) closes nothing either.
    assert_eq!(s.on_present(0, 2_000_000), None);
    assert_eq!(
        s.on_present(1_400_000, 3_000_000),
        Some(LatencyReport { key_to_present_us: 2_000, echo_fed_us: 400 })
    );
    assert_eq!(s, LatencySample::new());
}
