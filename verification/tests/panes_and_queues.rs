use std::sync::atomic::{AtomicUsize, Ordering};

use noa_app::attach::AttachState;
use noa_app::input_queue::{
    admit_charge, input_charge, release_budget, reserve_budget, InputOverflow, QueueInputResult,
    SendOutcome, PTY_INPUT_PENDING_BYTE_CAP, PTY_INPUT_PENDING_MIN_CHARGE,
};
use noa_app::ipc_registry::IpcRegistry;
use noa_app::record_view::ruled;
use noa_app::sidebar::preview_row_picks;

#[test]
fn registry_mint_is_idempotent_and_resolves_both_ways() {
    let mut registry = IpcRegistry::default();
    let first = registry.mint(10, 1);
    let second = registry.mint(10, 1);
    assert_eq!(first, second, "minting the same pane twice returns the same id");
    let third = registry.mint(10, 2);
    assert_ne!(first, third);
    assert_eq!(registry.resolve(first), Some((10, 1)));
    assert_eq!(registry.resolve(999), None, "unminted id resolves to nothing");
}

#[test]
fn prune_drops_entries_absent_from_the_live_set_and_keeps_the_rest() {
    let mut registry = IpcRegistry::default();
    let closed = registry.mint(10, 1);
    let kept = registry.mint(10, 2);
    registry.prune(&[(10, 2)]);
    assert_eq!(registry.resolve(closed), None, "pane absent from the live set is pruned");
    assert_eq!(registry.resolve(kept), Some((10, 2)), "pane present in the live set survives");
    let reminted = registry.mint(10, 1);
    assert_ne!(reminted, closed);
}

#[test]
fn rekey_preserves_the_minted_id_under_the_new_key() {
    let mut registry = IpcRegistry::default();
    let other = registry.mint(10, 2);
    let id = registry.mint(10, 1);
    registry.rekey((10, 1), (20, 1));
    assert_eq!(registry.resolve(id), Some((20, 1)), "the id now resolves to the new key");
    assert_eq!(registry.id_of((10, 1)), None, "the old key is no longer registered");
    assert_eq!(registry.mint(20, 1), id, "re-minting the new key returns the same id");
    assert_eq!(registry.resolve(other), Some((10, 2)), "an unrelated pane is untouched");
}

#[test]
fn rekey_is_a_no_op_when_the_old_key_has_no_registration_or_the_new_key_is_taken() {
    let mut registry = IpcRegistry::default();
    let a = registry.mint(10, 1);
    let b = registry.mint(10, 2);
    registry.rekey((99, 9), (100, 1));
    assert_eq!(registry.resolve(a), Some((10, 1)));
    assert_eq!(registry.resolve(b), Some((10, 2)));
    registry.rekey((10, 1), (10, 2));
    assert_eq!(registry.resolve(a), Some((10, 1)), "left in place when the destination is taken");
    assert_eq!(registry.resolve(b), Some((10, 2)));
}

#[test]
fn ids_count_up_from_one() {
    let mut registry = IpcRegistry::new();
    assert_eq!(registry.mint(1, 1), 1);
    assert_eq!(registry.mint(1, 2), 2);
    registry.prune(&[]);
    assert_eq!(registry.resolve(1), None);
    assert_eq!(registry.mint(1, 1), 3);
}

#[test]
fn raw_attach_stale_generation_cannot_write_or_detach_the_new_generation() {
    let mut state: AttachState<&str> = AttachState::new();
    assert_eq!(state.register(1, "first"), Ok(None));
    assert!(state.admits(1));
    // A newer generation replaces the first, handing its output back to close.
    assert_eq!(state.register(2, "second"), Ok(Some("first")));
    assert!(!state.admits(1));
    assert_eq!(state.detach(1), None);
    assert!(state.admits(2));
    assert_eq!(state.sink(), Some((2, &"second")));
    assert_eq!(state.detach(2), Some("second"));
    assert!(!state.admits(2));
    assert_eq!(state.sink(), None);
}

#[test]
fn raw_attach_pane_shutdown_rejects_every_later_generation() {
    let mut state: AttachState<u32> = AttachState::new();
    assert!(state.is_available());
    assert_eq!(state.register(1, 10), Ok(None));
    assert_eq!(state.shutdown(), Some(10));
    assert!(!state.is_available());
    assert_eq!(state.register(2, 20), Err(20));
    assert!(!state.admits(2));
    assert_eq!(state.shutdown(), None);
}

#[test]
fn input_budget_charges_small_message_overhead() {
    assert_eq!(input_charge(1), PTY_INPUT_PENDING_MIN_CHARGE);
    assert_eq!(input_charge(5000), 5000);
    assert_eq!(admit_charge(0, 1024), Some(1024));
    assert_eq!(admit_charge(PTY_INPUT_PENDING_BYTE_CAP - 1024, 1024), Some(PTY_INPUT_PENDING_BYTE_CAP));
    assert_eq!(admit_charge(PTY_INPUT_PENDING_BYTE_CAP - 1023, 1024), None);
    assert_eq!(admit_charge(usize::MAX, 1), None);
}

#[test]
fn input_pending_past_byte_cap_is_dropped_and_released_after_consumption() {
    let pending = AtomicUsize::new(0);
    let big = PTY_INPUT_PENDING_BYTE_CAP - PTY_INPUT_PENDING_MIN_CHARGE;
    assert_eq!(reserve_budget(&pending, big), Some(big));
    assert_eq!(reserve_budget(&pending, 1), Some(PTY_INPUT_PENDING_MIN_CHARGE));
    assert_eq!(pending.load(Ordering::SeqCst), PTY_INPUT_PENDING_BYTE_CAP);
    // At the cap: dropped, and the budget is untouched.
    assert_eq!(reserve_budget(&pending, 1), None);
    assert_eq!(pending.load(Ordering::SeqCst), PTY_INPUT_PENDING_BYTE_CAP);
    // Once written, the charge is released and input flows again.
    release_budget(&pending, big);
    assert_eq!(reserve_budget(&pending, 1), Some(PTY_INPUT_PENDING_MIN_CHARGE));
}

#[test]
fn overflowing_input_defers_and_preserves_order_across_later_writes() {
    let mut overflow: InputOverflow<u32> = InputOverflow::new();
    // No drainer: the input goes to the channel, which is full.
    assert_eq!(overflow.route(1), Some(1));
    assert_eq!(overflow.after_send(SendOutcome::Full, Some(1)), (QueueInputResult::Deferred, true));
    assert!(overflow.drainer_active());
    // Later inputs queue behind it.
    assert_eq!(overflow.route(2), None);
    assert_eq!(overflow.route(3), None);
    assert_eq!(overflow.pop(), Some(1));
    assert_eq!(overflow.pop(), Some(2));
    assert_eq!(overflow.pop(), Some(3));
    assert!(overflow.drainer_active());
    // The drainer stops once it finds the buffer empty.
    assert_eq!(overflow.pop(), None);
    assert!(!overflow.drainer_active());
    assert_eq!(overflow.route(4), Some(4));
    assert_eq!(overflow.after_send(SendOutcome::Sent, None), (QueueInputResult::Queued, false));
    assert_eq!(overflow.after_send(SendOutcome::Disconnected, None), (QueueInputResult::Disconnected, false));
}

#[test]
fn a_reset_overflow_forgets_parked_input() {
    let mut overflow: InputOverflow<u32> = InputOverflow::new();
    overflow.after_send(SendOutcome::Full, Some(7));
    overflow.park(8);
    overflow.reset();
    assert!(!overflow.drainer_active());
    assert_eq!(overflow.pop(), None);
}

#[test]
fn ruled_labels_fill_the_width_or_fall_back_to_the_trimmed_label() {
    let r = ruled("saved", 17);
    assert_eq!(r, "\u{2500}\u{2500}\u{2500}\u{2500}\u{2500} saved \u{2500}\u{2500}\u{2500}\u{2500}\u{2500}");
    assert_eq!(r.chars().count(), 17);
    // Odd leftovers go to the right.
    assert_eq!(ruled("ab", 9), "\u{2500}\u{2500} ab \u{2500}\u{2500}\u{2500}");
    // Too narrow for four rule characters: the label alone.
    assert_eq!(ruled("layout restored", 10), "layout restored");
    assert_eq!(ruled(" padded ", 3), "padded");
}

#[test]
fn previews_take_the_last_nonblank_rows_in_order() {
    assert_eq!(preview_row_picks(&[3, 0, 5, 0, 2], 2), vec![(2, 5), (4, 2)]);
    assert_eq!(preview_row_picks(&[3, 0, 5], 10), vec![(0, 3), (2, 5)]);
    assert_eq!(preview_row_picks(&[0, 0], 3), vec![]);
    assert_eq!(preview_row_picks(&[1, 1, 1], 0), vec![]);
}
