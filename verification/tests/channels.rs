use pacmine::task_manager::TaskManager;
use std::sync::atomic::{AtomicBool, Ordering};
use std::sync::Arc;
use std::time::Duration;
use tokio::sync::mpsc::{Receiver, Sender};
use tokio::sync::Mutex;

type Registry = TaskManager<Sender<String>, Arc<Mutex<Receiver<String>>>>;

#[test]
fn closed_channel_drains_to_end_of_stream() {
    let rt = tokio::runtime::Builder::new_multi_thread()
        .worker_threads(2)
        .enable_time()
        .build()
        .unwrap();
    rt.block_on(async {
        let (cmd_tx, _cmd_rx) = tokio::sync::mpsc::channel::<String>(8);
        let (out_tx, out_rx) = tokio::sync::mpsc::channel::<String>(8);
        let mut registry: Registry = TaskManager::new();
        registry.register(5, cmd_tx, Arc::new(Mutex::new(out_rx)));
        assert!(registry.get_sender(5).is_some());
        assert!(registry.get_receiver(5).is_some());
        assert!(registry.get_sender(6).is_none());

        out_tx.send("line".to_string()).await.unwrap();
        drop(out_tx);

        let rx_arc = registry.get_receiver(5).unwrap().clone();
        let mut guard = rx_arc.lock().await;
        assert_eq!(guard.recv().await, Some("line".to_string()));
        // The producer side is gone: drains observe end-of-stream rather
        // than blocking forever, now and on every later attempt.
        assert_eq!(guard.recv().await, None);
        assert_eq!(guard.recv().await, None);
    });
}

#[test]
fn second_drain_waits_for_the_first_guard() {
    let rt = tokio::runtime::Builder::new_multi_thread()
        .worker_threads(4)
        .enable_time()
        .build()
        .unwrap();
    rt.block_on(async {
        let (cmd_tx, _cmd_rx) = tokio::sync::mpsc::channel::<String>(8);
        let (out_tx, out_rx) = tokio::sync::mpsc::channel::<String>(8);
        let mut registry: Registry = TaskManager::new();
        registry.register(7, cmd_tx, Arc::new(Mutex::new(out_rx)));
        let rx_arc = registry.get_receiver(7).unwrap().clone();

        let (release_tx, release_rx) = tokio::sync::oneshot::channel::<()>();
        let first_arc = rx_arc.clone();
        let first_drain = tokio::spawn(async move {
            let mut guard = first_arc.lock().await;
            let item = guard.recv().await.unwrap();
            release_rx.await.unwrap();
            item
        });

        // Give the first drain time to take the guard.
        tokio::time::sleep(Duration::from_millis(100)).await;

        let second_received = Arc::new(AtomicBool::new(false));
        let second_arc = rx_arc.clone();
        let second_flag = second_received.clone();
        let second_drain = tokio::spawn(async move {
            let mut guard = second_arc.lock().await;
            let item = guard.recv().await.unwrap();
            second_flag.store(true, Ordering::SeqCst);
            item
        });

        out_tx.send("one".to_string()).await.unwrap();
        out_tx.send("two".to_string()).await.unwrap();
        tokio::time::sleep(Duration::from_millis(200)).await;
        // Items are available, but the second drain's first receive has not
        // returned: the first drain still holds the guard.
        assert!(!second_received.load(Ordering::SeqCst));

        release_tx.send(()).unwrap();
        assert_eq!(first_drain.await.unwrap(), "one");
        assert_eq!(second_drain.await.unwrap(), "two");
        assert!(second_received.load(Ordering::SeqCst));
    });
}
