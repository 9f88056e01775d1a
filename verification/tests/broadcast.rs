use glebin::server::broadcaster::{publish, receivers_reached};
use glebin::server::connection::SNAPSHOT_BACKLOG;
use tokio::sync::broadcast::channel;
use tokio::sync::broadcast::error::{SendError, TryRecvError};

#[test]
fn publish_without_subscribers_is_no_failure() {
    let (tx, rx) = channel::<String>(SNAPSHOT_BACKLOG);
    drop(rx);
    assert_eq!(publish(&tx, "{}".to_string()), 0);
    let mut late = tx.subscribe();
    assert_eq!(publish(&tx, "{}".to_string()), 1);
    assert_eq!(late.try_recv(), Ok("{}".to_string()));
}

#[test]
fn publish_reaches_every_subscriber() {
    let (tx, mut first) = channel::<String>(SNAPSHOT_BACKLOG);
    let mut second = tx.subscribe();
    assert_eq!(publish(&tx, "{\"a\":[0.0,0.0]}".to_string()), 2);
    assert_eq!(first.try_recv(), Ok("{\"a\":[0.0,0.0]}".to_string()));
    assert_eq!(second.try_recv(), Ok("{\"a\":[0.0,0.0]}".to_string()));
    assert_eq!(first.try_recv(), Err(TryRecvError::Empty));
}

#[test]
fn late_subscriber_sees_only_later_snapshots() {
    let (tx, _keep) = channel::<String>(SNAPSHOT_BACKLOG);
    assert_eq!(publish(&tx, "one".to_string()), 1);
    let mut late = tx.subscribe();
    assert_eq!(late.try_recv(), Err(TryRecvError::Empty));
    assert_eq!(publish(&tx, "two".to_string()), 2);
    assert_eq!(late.try_recv(), Ok("two".to_string()));
    assert_eq!(late.try_recv(), Err(TryRecvError::Empty));
}

#[test]
fn slow_subscriber_loses_the_oldest_snapshots() {
    let (tx, mut slow) = channel::<String>(SNAPSHOT_BACKLOG);
    for i in 0..40 {
        assert_eq!(publish(&tx, format!("{}", i)), 1);
    }
    assert!(matches!(slow.try_recv(), Err(TryRecvError::Lagged(_))));
    let next = slow.try_recv().unwrap();
    assert_ne!(next, "0");
    let mut last = next;
    while let Ok(text) = slow.try_recv() {
        last = text;
    }
    assert_eq!(last, "39");
}

#[test]
fn receivers_reached_counts_none_on_refusal() {
    assert_eq!(receivers_reached(Ok(3)), 3);
    assert_eq!(receivers_reached(Err(SendError("{}".to_string()))), 0);
}
