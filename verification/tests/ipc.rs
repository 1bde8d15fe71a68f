use std::sync::mpsc;

/// Backpressure: a bounded channel fills up.
#[test]
fn thread_ipc_backpressure_bounded() {
    let (tx, rx) = mpsc::sync_channel::<i32>(5);

    for i in 0..5 {
        tx.try_send(i).unwrap();
    }

    assert!(tx.try_send(5).is_err());

    let _ = rx.recv().unwrap();

    tx.try_send(5).unwrap();
}
