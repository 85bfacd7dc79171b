use taskcoord::CoordError;
use taskcoord::channel;
use taskcoord::join;
use taskcoord::spawn;

#[test]
fn channel_delivers_every_message_with_per_sender_order() {
    let (tx0, mut rx) = channel::<(usize, usize)>();
    let tx1 = tx0.clone_handle();
    let tx2 = tx0.clone_handle();
    let counts: [usize; 3] = [4, 5, 3];
    let w0 = spawn(move || {
        let mut tx = tx0;
        for j in 0..4 {
            tx.send((0, j)).unwrap();
        }
    });
    let w1 = spawn(move || {
        let mut tx = tx1;
        for j in 0..5 {
            tx.send((1, j)).unwrap();
        }
    });
    let w2 = spawn(move || {
        let mut tx = tx2;
        for j in 0..3 {
            tx.send((2, j)).unwrap();
        }
    });
    // Blocks until all three senders are dropped and the buffer is drained.
    let got = rx.recv_until_closed();
    assert_eq!(got.len(), 12);
    for s in 0..3 {
        let from_s: Vec<usize> = got.iter().filter(|m| m.0 == s).map(|m| m.1).collect();
        let expected: Vec<usize> = (0..counts[s]).collect();
        assert_eq!(from_s, expected);
    }
    assert_eq!(join(w0), Ok(()));
    assert_eq!(join(w1), Ok(()));
    assert_eq!(join(w2), Ok(()));
}

#[test]
fn single_sender_is_fifo() {
    let (mut tx, mut rx) = channel::<u64>();
    for v in [10, 20, 30, 40] {
        tx.send(v).unwrap();
    }
    drop(tx);
    assert_eq!(rx.recv_until_closed(), vec![10, 20, 30, 40]);
}

#[test]
fn send_after_receiver_dropped_is_channel_closed() {
    let (mut tx, rx) = channel::<u64>();
    drop(rx);
    assert_eq!(tx.send(1), Err(CoordError::ChannelClosed));
}

#[test]
fn recv_reports_end_of_stream() {
    let (mut tx, mut rx) = channel::<u64>();
    tx.send(5).unwrap();
    drop(tx);
    assert_eq!(rx.recv(), Some(5));
    assert_eq!(rx.recv(), None);
    assert_eq!(rx.recv(), None);
}

#[test]
fn cloned_senders_share_one_queue() {
    let (mut tx, mut rx) = channel::<u64>();
    let mut tx_b = tx.clone_handle();
    tx.send(1).unwrap();
    tx_b.send(2).unwrap();
    drop(tx);
    // One sender is still alive, so the stream is not closed yet.
    assert_eq!(rx.recv(), Some(1));
    assert_eq!(rx.recv(), Some(2));
    tx_b.send(3).unwrap();
    drop(tx_b);
    assert_eq!(rx.recv_until_closed(), vec![3]);
}
