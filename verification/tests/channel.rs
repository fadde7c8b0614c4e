use voice_gate::channel::ActivityChannel;
use voice_gate::shared::{
    slot_code, slot_level, SharedActivityChannel, SLOT_ACTIVE, SLOT_EMPTY, SLOT_INACTIVE,
};
use voice_gate::frame::Frame;
use voice_gate::playback::PlaybackLoop;

fn reader() -> PlaybackLoop {
    PlaybackLoop::new(Frame::new(1, 1, vec![0, 0, 0]).unwrap())
}

#[test]
fn new_channel_is_empty() {
    let mut channel = ActivityChannel::new();
    assert_eq!(channel.try_recv(), None);
}

#[test]
fn receive_takes_the_pending_level() {
    let mut channel = ActivityChannel::new();
    channel.send(true);
    assert_eq!(channel.try_recv(), Some(true));
    assert_eq!(channel.try_recv(), None);
    channel.send(false);
    assert_eq!(channel.try_recv(), Some(false));
    assert_eq!(channel.try_recv(), None);
}

#[test]
fn newer_level_replaces_the_pending_one() {
    let mut channel = ActivityChannel::new();
    channel.send(true);
    channel.send(true);
    channel.send(false);
    assert_eq!(channel.try_recv(), Some(false));
    assert_eq!(channel.try_recv(), None);
}

#[test]
fn burst_without_reads_ends_in_latest_level() {
    let mut channel = ActivityChannel::new();
    let mut playback = reader();
    for level in [true, true, false] {
        channel.send(level);
    }
    playback.observe(channel.try_recv());
    assert!(!playback.is_active());
}

#[test]
fn burst_with_reads_in_between_ends_in_latest_level() {
    let sends = [true, true, false];
    for reads in 0u32..8 {
        let mut channel = ActivityChannel::new();
        let mut playback = reader();
        for (i, level) in sends.iter().enumerate() {
            channel.send(*level);
            if reads & (1 << i) != 0 {
                playback.observe(channel.try_recv());
            }
        }
        playback.observe(channel.try_recv());
        assert!(!playback.is_active());
        playback.observe(channel.try_recv());
        assert!(!playback.is_active());
    }
}

#[test]
fn repeated_reads_do_not_change_the_outcome() {
    let mut channel = ActivityChannel::new();
    let mut playback = reader();
    channel.send(true);
    for _ in 0..5 {
        playback.observe(channel.try_recv());
        assert!(playback.is_active());
    }
    channel.send(true);
    channel.send(false);
    for _ in 0..5 {
        playback.observe(channel.try_recv());
        assert!(!playback.is_active());
    }
}

#[test]
fn reader_never_sees_an_older_level_after_a_newer_one() {
    let mut channel = ActivityChannel::new();
    channel.send(false);
    channel.send(true);
    assert_eq!(channel.try_recv(), Some(true));
    assert_eq!(channel.try_recv(), None);
}

#[test]
fn levels_are_received_in_the_order_sent() {
    let sends = [true, false, false, true, false, true, true, false];
    for polls in 0u32..256 {
        let mut channel = ActivityChannel::new();
        let mut received: Vec<(usize, bool)> = Vec::new();
        for (i, level) in sends.iter().enumerate() {
            channel.send(*level);
            if polls & (1 << i) != 0 {
                if let Some(got) = channel.try_recv() {
                    received.push((i, got));
                }
                assert_eq!(channel.try_recv(), None);
            }
        }
        assert_eq!(received.len(), polls.count_ones() as usize);
        for (i, got) in received {
            assert_eq!(got, sends[i]);
        }
    }
}

#[test]
fn slot_codes_are_distinct_and_decode_to_their_levels() {
    assert_eq!(slot_code(None), SLOT_EMPTY);
    assert_eq!(slot_code(Some(false)), SLOT_INACTIVE);
    assert_eq!(slot_code(Some(true)), SLOT_ACTIVE);
    assert_eq!((SLOT_EMPTY, SLOT_INACTIVE, SLOT_ACTIVE), (0, 1, 2));
    for pending in [None, Some(false), Some(true)] {
        assert_eq!(slot_level(slot_code(pending)), pending);
    }
}

#[test]
fn byte_that_is_no_code_stands_for_no_level() {
    for code in 3u8..=255 {
        assert_eq!(slot_level(code), None);
    }
}

#[test]
fn shared_channel_starts_empty() {
    let channel = SharedActivityChannel::new();
    assert_eq!(channel.try_recv(), None);
    assert_eq!(channel.try_recv(), None);
}

#[test]
fn shared_channel_hands_over_the_latest_level() {
    let channel = SharedActivityChannel::new();
    channel.send(true);
    assert_eq!(channel.try_recv(), Some(true));
    assert_eq!(channel.try_recv(), None);
    channel.send(true);
    channel.send(true);
    channel.send(false);
    assert_eq!(channel.try_recv(), Some(false));
    assert_eq!(channel.try_recv(), None);
    channel.send(false);
    channel.send(true);
    assert_eq!(channel.try_recv(), Some(true));
}

#[test]
fn shared_channel_agrees_with_the_mailbox() {
    let sends = [true, true, false, true, false, false];
    for polls in 0u32..64 {
        let shared = SharedActivityChannel::new();
        let mut mailbox = ActivityChannel::new();
        for (i, level) in sends.iter().enumerate() {
            shared.send(*level);
            mailbox.send(*level);
            if polls & (1 << i) != 0 {
                assert_eq!(shared.try_recv(), mailbox.try_recv());
            }
        }
        assert_eq!(shared.try_recv(), mailbox.try_recv());
        assert_eq!(shared.try_recv(), None);
    }
}

#[test]
fn reader_of_shared_channel_ends_in_latest_level() {
    for reads in 0u32..8 {
        let channel = SharedActivityChannel::new();
        let mut playback = reader();
        for (i, level) in [true, true, false].iter().enumerate() {
            channel.send(*level);
            if reads & (1 << i) != 0 {
                playback.observe(channel.try_recv());
            }
        }
        playback.observe(channel.try_recv());
        assert!(!playback.is_active());
    }
}
