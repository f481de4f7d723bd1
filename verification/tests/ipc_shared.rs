use std::sync::Arc;

use noa_app::input_queue::QueueInputResult;
use noa_app::ipc_shared::{attach_validate, attach_write_result, AttachWriteError, IpcShared, PaneLookupError};

/// A terminal handle stand-in whose identity the tests can check.
type Handle = Arc<String>;
/// A raw-attach endpoint stand-in.
type Attach = u32;

#[test]
fn rekey_pane_moves_registry_attach_and_terminals_to_the_new_key() {
    let mut shared: IpcShared<Handle, Attach> = IpcShared::default();
    let ipc_id = shared.registry.mint(10, 1);
    let terminal = Arc::new("terminal".to_string());
    shared.terminals.insert((10, 1), terminal.clone());
    shared.attach_panes.insert((10, 1), 7);

    shared.rekey_pane((10, 1), (20, 1));

    assert_eq!(shared.registry.resolve(ipc_id), Some((20, 1)), "the minted registry id follows the pane");
    assert!(!shared.terminals.contains_key((10, 1)), "the old terminals key is gone");
    assert!(
        Arc::ptr_eq(shared.terminals.get((20, 1)).expect("terminal moved to the new key"), &terminal),
        "the same terminal handle follows the pane, not a fresh lookup"
    );
    assert!(!shared.attach_panes.contains_key((10, 1)), "the old attach_panes key is gone");
    assert!(shared.attach_panes.contains_key((20, 1)), "the raw-attach registration follows the pane");
}

#[test]
fn resolve_terminal_survives_a_rekey_that_breaks_the_two_phase_lookup() {
    let mut shared: IpcShared<Handle, Attach> = IpcShared::default();
    let ipc_id = shared.registry.mint(10, 1);
    let terminal = Arc::new("terminal".to_string());
    shared.terminals.insert((10, 1), terminal.clone());

    let stale_key = shared.registry.resolve(ipc_id).expect("live pane resolves before the move");
    assert_eq!(stale_key, (10, 1));

    shared.rekey_pane((10, 1), (20, 1));
    assert!(
        !shared.terminals.contains_key(stale_key),
        "the two-phase lookup would now miss: terminal moved off the resolved key"
    );

    let fetched = shared
        .resolve_terminal(ipc_id)
        .expect("live pane still resolves through the combined path");
    assert!(Arc::ptr_eq(fetched, &terminal), "the combined resolve returns the same live handle at the new key");
}

#[test]
fn resolve_terminal_reports_unknown_pane_and_pane_closed_distinctly() {
    let mut shared: IpcShared<Handle, Attach> = IpcShared::default();
    assert!(matches!(shared.resolve_terminal(999), Err(PaneLookupError::UnknownPane)));
    let ipc_id = shared.registry.mint(10, 1);
    assert!(matches!(shared.resolve_terminal(ipc_id), Err(PaneLookupError::PaneClosed)));
}

#[test]
fn rekey_pane_onto_itself_changes_nothing() {
    let mut shared: IpcShared<Handle, Attach> = IpcShared::new();
    let ipc_id = shared.registry.mint(3, 4);
    shared.terminals.insert((3, 4), Arc::new("t".to_string()));
    shared.attach_panes.insert((3, 4), 1);
    shared.rekey_pane((3, 4), (3, 4));
    assert_eq!(shared.registry.resolve(ipc_id), Some((3, 4)));
    assert!(shared.terminals.contains_key((3, 4)));
    assert_eq!(shared.attach_panes.get((3, 4)), Some(&1));
}

#[test]
fn pane_table_insert_replaces_and_remove_takes() {
    let mut shared: IpcShared<Handle, Attach> = IpcShared::new();
    shared.attach_panes.insert((1, 1), 5);
    shared.attach_panes.insert((1, 1), 6);
    assert_eq!(shared.attach_panes.get((1, 1)), Some(&6));
    assert_eq!(shared.attach_panes.remove((1, 1)), Some(6));
    assert_eq!(shared.attach_panes.remove((1, 1)), None);
    assert!(!shared.attach_panes.contains_key((1, 1)));
}

#[test]
fn attach_endpoints_resolve_like_terminals() {
    let mut shared: IpcShared<Handle, Attach> = IpcShared::new();
    assert_eq!(shared.resolve_attach_pane(1), Err(PaneLookupError::UnknownPane));
    let id = shared.registry.mint(2, 3);
    assert_eq!(shared.resolve_attach_pane(id), Err(PaneLookupError::PaneClosed));
    shared.attach_panes.insert((2, 3), 9);
    assert_eq!(shared.resolve_attach_pane(id), Ok(&9));
}

#[test]
fn attach_writes_map_queue_outcomes_to_answers() {
    assert_eq!(attach_write_result(Ok(QueueInputResult::Queued)), Ok(()));
    assert_eq!(attach_write_result(Ok(QueueInputResult::Deferred)), Ok(()));
    assert_eq!(attach_write_result(Ok(QueueInputResult::Dropped)), Err(AttachWriteError::QueueFull));
    assert_eq!(attach_write_result(Ok(QueueInputResult::Disconnected)), Err(AttachWriteError::PaneClosed));
    assert_eq!(attach_write_result(Err(())), Err(AttachWriteError::PaneClosed));
    assert_eq!(attach_validate(true), Ok(()));
    assert_eq!(attach_validate(false), Err(PaneLookupError::PaneClosed));
}
