use panama::channel::channel;

#[test]
fn ping_pong() {
    let (mut tx, mut rx) = channel();

    tx.send(42);
    assert_eq!(rx.recv(), Some(42));
}

#[test]
fn closed_tx() {
    let (tx, mut rx) = channel::<()>();
    drop(tx);
    assert_eq!(rx.recv(), None);
}

#[test]
fn closed_rx() {
    let (mut tx, rx) = channel();
    drop(rx);
    tx.send(42);
}

#[test]
fn end_of_stream_is_idempotent() {
    let (tx, mut rx) = channel::<u32>();
    drop(tx);
    assert_eq!(rx.recv(), None);
    assert_eq!(rx.recv(), None);
}

#[test]
fn two_sends_arrive_in_lock_order() {
    let (mut tx, mut rx) = channel();
    tx.send("a");
    tx.send("b");
    assert_eq!(rx.recv(), Some("a"));
    assert_eq!(rx.recv(), Some("b"));
    drop(tx);
    assert_eq!(rx.recv(), None);
}

#[test]
fn burst_is_drained_in_order_and_in_full() {
    let (mut tx, mut rx) = channel();
    for i in 0..100u64 {
        tx.send(i);
    }
    for i in 0..100u64 {
        assert_eq!(rx.recv(), Some(i));
    }
    drop(tx);
    assert_eq!(rx.recv(), None);
}

#[test]
fn cloned_sender_keeps_channel_open() {
    let (mut tx, mut rx) = channel();
    let mut tx2 = tx.clone();
    tx.send(1);
    drop(tx);
    tx2.send(2);
    assert_eq!(rx.recv(), Some(1));
    assert_eq!(rx.recv(), Some(2));
    drop(tx2);
    assert_eq!(rx.recv(), None);
}

#[test]
fn interleaved_producers_preserve_their_own_order() {
    let (mut odd, mut rx) = channel();
    let mut even = odd.clone();
    odd.send(1);
    even.send(2);
    odd.send(3);
    even.send(4);
    let mut odds = Vec::new();
    let mut evens = Vec::new();
    drop(odd);
    drop(even);
    while let Some(v) = rx.recv() {
        if v % 2 == 1 {
            odds.push(v);
        } else {
            evens.push(v);
        }
    }
    assert_eq!(odds, vec![1, 3]);
    assert_eq!(evens, vec![2, 4]);
}
