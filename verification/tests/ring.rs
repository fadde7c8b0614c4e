use voice_gate::ring::RingCapture;

#[test]
fn full_window_yields_one_snapshot() {
    let input: Vec<i16> = vec![11, -22, 33, -44];
    let mut ring = RingCapture::new(4).unwrap();
    let mut snapshots: Vec<Vec<i16>> = Vec::new();
    for (i, sample) in input.iter().enumerate() {
        let out = ring.push(*sample);
        assert_eq!(out.is_some(), i == 3);
        if let Some(window) = out {
            snapshots.push(window);
        }
    }
    assert_eq!(snapshots, vec![input]);
    assert_eq!(ring.position(), 0);
}

#[test]
fn partial_window_yields_nothing() {
    let mut ring = RingCapture::new(5).unwrap();
    for sample in [7i16, 8, 9] {
        assert_eq!(ring.push(sample), None);
    }
    assert_eq!(ring.position(), 3);
    assert_eq!(ring.capacity(), 5);
}

#[test]
fn partial_window_keeps_what_was_written() {
    let mut ring = RingCapture::new(4).unwrap();
    assert_eq!(ring.feed(&[1, 2, 3]), Vec::<Vec<i16>>::new());
    assert_eq!(ring.position(), 3);
    assert_eq!(ring.push(4), Some(vec![1, 2, 3, 4]));
}

#[test]
fn zero_capacity_is_refused() {
    assert!(RingCapture::new(0).is_none());
}

#[test]
fn new_ring_starts_at_the_front() {
    let ring = RingCapture::new(4410).unwrap();
    assert_eq!(ring.capacity(), 4410);
    assert_eq!(ring.position(), 0);
}

#[test]
fn capacity_one_completes_every_sample() {
    let mut ring = RingCapture::new(1).unwrap();
    assert_eq!(ring.push(5), Some(vec![5]));
    assert_eq!(ring.position(), 0);
    assert_eq!(ring.push(-6), Some(vec![-6]));
    assert_eq!(ring.position(), 0);
}

#[test]
fn cursor_advances_modulo_capacity() {
    let mut ring = RingCapture::new(3).unwrap();
    let mut expected = 0usize;
    for sample in 0..10i16 {
        assert_eq!(ring.position(), expected);
        ring.push(sample);
        expected = (expected + 1) % 3;
    }
    assert_eq!(ring.position(), 1);
}

#[test]
fn second_window_overwrites_first() {
    let mut ring = RingCapture::new(2).unwrap();
    assert_eq!(ring.push(1), None);
    assert_eq!(ring.push(2), Some(vec![1, 2]));
    assert_eq!(ring.push(3), None);
    assert_eq!(ring.push(4), Some(vec![3, 4]));
}

#[test]
fn snapshot_is_a_copy() {
    let mut ring = RingCapture::new(2).unwrap();
    ring.push(1);
    let first = ring.push(2).unwrap();
    ring.push(30);
    ring.push(40);
    assert_eq!(first, vec![1, 2]);
}

#[test]
fn feed_returns_windows_in_order() {
    let mut ring = RingCapture::new(3).unwrap();
    let completed = ring.feed(&[1, 2, 3, 4, 5, 6, 7, 8]);
    assert_eq!(completed, vec![vec![1, 2, 3], vec![4, 5, 6]]);
    assert_eq!(ring.position(), 2);
}

#[test]
fn feed_continues_across_blocks() {
    let mut ring = RingCapture::new(3).unwrap();
    assert!(ring.feed(&[1, 2]).is_empty());
    assert_eq!(ring.feed(&[3, 4]), vec![vec![1, 2, 3]]);
    assert_eq!(ring.position(), 1);
    assert_eq!(ring.feed(&[5, 6, 7, 8, 9]), vec![vec![4, 5, 6], vec![7, 8, 9]]);
    assert_eq!(ring.position(), 0);
}

#[test]
fn feed_of_nothing_changes_nothing() {
    let mut ring = RingCapture::new(3).unwrap();
    ring.push(1);
    assert!(ring.feed(&[]).is_empty());
    assert_eq!(ring.position(), 1);
    assert_eq!(ring.feed(&[2, 3]), vec![vec![1, 2, 3]]);
}

#[test]
fn feed_from_the_middle_counts_whole_windows() {
    let mut ring = RingCapture::new(4).unwrap();
    ring.feed(&[1, 2]);
    let completed = ring.feed(&[3, 4, 5, 6, 7, 8, 9, 10, 11]);
    assert_eq!(completed.len(), (2 + 9) / 4);
    assert_eq!(completed, vec![vec![1, 2, 3, 4], vec![5, 6, 7, 8]]);
    assert_eq!(ring.position(), (2 + 9) % 4);
}

#[test]
fn feed_matches_repeated_push() {
    let input: Vec<i16> = (0..23).map(|x| (x * 37 - 400) as i16).collect();
    let mut by_feed = RingCapture::new(5).unwrap();
    let mut by_push = RingCapture::new(5).unwrap();
    let fed = by_feed.feed(&input);
    let mut pushed: Vec<Vec<i16>> = Vec::new();
    for sample in &input {
        if let Some(window) = by_push.push(*sample) {
            pushed.push(window);
        }
    }
    assert_eq!(fed, pushed);
    assert_eq!(fed.len(), 4);
    assert_eq!(by_feed.position(), by_push.position());
    assert_eq!(by_feed.position(), 3);
}
