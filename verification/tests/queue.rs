use cadence_core::models::{Track, TrackId};
use cadence_core::queue::{
    announced_state, command_action, current_state, mpris_status, seek_target_ns, shuffle_order,
    toggle_action, MprisCommand, MprisStatus, PipelineState, PlaybackState, PlayerAction, Queue,
    RepeatMode,
};

fn track(id: i64) -> Track {
    Track {
        id: TrackId(id),
        path: format!("/m/{id}.flac"),
        title: format!("T{id}"),
        album_id: None,
        artist_id: None,
        album_artist_id: None,
        composer: None,
        genre: None,
        year: None,
        track_number: None,
        disc_number: None,
        duration_ms: None,
        format: None,
        file_size: 0,
        modified_at: 0,
        added_at: 0,
        play_count: 0,
        favorite: false,
    }
}

fn ids(q: &Queue) -> Vec<i64> {
    q.tracks().iter().map(|t| t.id.0).collect()
}

fn queue_of(n: i64, start: usize) -> Queue {
    let mut q = Queue::new();
    q.replace((1..=n).map(track).collect(), start);
    q
}

#[test]
fn new_queue_is_empty() {
    let mut q = Queue::new();
    assert!(q.tracks().is_empty());
    assert!(q.current().is_none());
    assert_eq!(q.repeat_mode(), RepeatMode::Off);
    assert!(!q.shuffle_enabled());
    assert!(q.next().is_none());
    assert!(q.previous().is_none());
}

#[test]
fn replace_clamps_the_start() {
    let q = queue_of(3, 10);
    assert_eq!(q.current_index(), Some(2));
    let q = queue_of(3, 1);
    assert_eq!(q.current().map(|t| t.id.0), Some(2));
}

#[test]
fn next_stops_at_the_end_without_repeat() {
    let mut q = queue_of(2, 0);
    assert_eq!(q.next().map(|t| t.id.0), Some(2));
    assert!(q.next().is_none());
    assert_eq!(q.current_index(), None);
}

#[test]
fn repeat_all_wraps_around() {
    let mut q = queue_of(3, 2);
    q.set_repeat(RepeatMode::All);
    assert_eq!(q.next().map(|t| t.id.0), Some(1));
    assert_eq!(q.next().map(|t| t.id.0), Some(2));
    assert_eq!(q.next().map(|t| t.id.0), Some(3));
    assert_eq!(q.next().map(|t| t.id.0), Some(1));
}

#[test]
fn repeat_one_stays() {
    let mut q = queue_of(3, 1);
    q.set_repeat(RepeatMode::One);
    assert_eq!(q.next().map(|t| t.id.0), Some(2));
    assert_eq!(q.next().map(|t| t.id.0), Some(2));
}

#[test]
fn previous_then_next_returns() {
    let mut q = queue_of(3, 1);
    assert_eq!(q.previous().map(|t| t.id.0), Some(1));
    assert_eq!(q.previous().map(|t| t.id.0), Some(1));
    assert_eq!(q.next().map(|t| t.id.0), Some(2));
    q.set_repeat(RepeatMode::All);
    q.jump_to(0);
    assert_eq!(q.previous().map(|t| t.id.0), Some(3));
}

#[test]
fn jump_out_of_range_changes_nothing() {
    let mut q = queue_of(3, 1);
    assert!(q.jump_to(7).is_none());
    assert_eq!(q.current_index(), Some(1));
    assert_eq!(q.jump_to(2).map(|t| t.id.0), Some(3));
}

#[test]
fn shuffle_keeps_current_first_and_unshuffle_restores() {
    let mut q = queue_of(8, 3);
    q.set_shuffle(true);
    assert!(q.shuffle_enabled());
    assert_eq!(q.current_index(), Some(0));
    assert_eq!(q.current().map(|t| t.id.0), Some(4));
    let mut sorted = ids(&q);
    sorted.sort();
    assert_eq!(sorted, (1..=8).collect::<Vec<_>>());
    q.set_shuffle(false);
    assert_eq!(ids(&q), (1..=8).collect::<Vec<_>>());
    assert_eq!(q.current().map(|t| t.id.0), Some(4));
}

#[test]
fn remove_adjusts_current() {
    let mut q = queue_of(4, 2);
    q.remove(TrackId(1));
    assert_eq!(ids(&q), vec![2, 3, 4]);
    assert_eq!(q.current().map(|t| t.id.0), Some(3));
    q.remove(TrackId(3));
    assert_eq!(ids(&q), vec![2, 4]);
    q.remove(TrackId(99));
    assert_eq!(ids(&q), vec![2, 4]);
}

#[test]
fn append_starts_an_empty_queue() {
    let mut q = Queue::new();
    q.append(vec![track(5), track(6)]);
    assert_eq!(q.current_index(), Some(0));
    q.append(vec![track(7)]);
    assert_eq!(ids(&q), vec![5, 6, 7]);
    assert_eq!(q.current_index(), Some(0));
    assert_eq!(q.upcoming().iter().map(|t| t.id.0).collect::<Vec<_>>(), vec![6, 7]);
    q.clear();
    assert!(q.tracks().is_empty());
}

#[test]
fn repeat_cycles_with_period_three() {
    let m = RepeatMode::Off;
    assert_eq!(m.cycled(), RepeatMode::All);
    assert_eq!(m.cycled().cycled(), RepeatMode::One);
    assert_eq!(m.cycled().cycled().cycled(), RepeatMode::Off);
    assert_eq!(RepeatMode::All.label(), "Repeat: All");
}

#[test]
fn shuffle_order_is_a_permutation() {
    for n in [0usize, 1, 2, 10] {
        let mut p = shuffle_order(n, 12345);
        p.sort();
        assert_eq!(p, (0..n).collect::<Vec<_>>());
    }
}

#[test]
fn media_keys() {
    assert_eq!(command_action(MprisCommand::PlayPause, PlaybackState::Playing), PlayerAction::Pause);
    assert_eq!(command_action(MprisCommand::PlayPause, PlaybackState::Paused), PlayerAction::Play);
    assert_eq!(command_action(MprisCommand::Next, PlaybackState::Stopped), PlayerAction::PlayNext);
    assert_eq!(mpris_status(PlaybackState::Buffering), MprisStatus::Stopped);
    assert_eq!(mpris_status(PlaybackState::Paused), MprisStatus::Paused);
}

#[test]
fn pipeline_states_and_seeking() {
    assert_eq!(announced_state(PipelineState::Ready), Some(PlaybackState::Stopped));
    assert_eq!(announced_state(PipelineState::VoidPending), None);
    assert_eq!(current_state(PipelineState::Null), PlaybackState::Stopped);
    assert_eq!(current_state(PipelineState::Paused), PlaybackState::Paused);
    assert_eq!(toggle_action(PlaybackState::Playing), PlayerAction::Pause);
    assert_eq!(toggle_action(PlaybackState::Buffering), PlayerAction::Play);
    assert_eq!(seek_target_ns(200_000_000_000, 500_000), 100_000_000_000);
    assert_eq!(seek_target_ns(3, 333_333), 0);
    assert_eq!(seek_target_ns(u64::MAX, 1_000_000), u64::MAX / 1_000_000);
    assert_eq!(seek_target_ns(4_000_000, 2_500_000), 4_000_000);
}

fn reference_shuffle(n: usize, seed: u64) -> Vec<usize> {
    let mut items: Vec<usize> = (0..n).collect();
    if n < 2 {
        return items;
    }
    let mut state = seed;
    for i in (1..n).rev() {
        state ^= state >> 12;
        state ^= state << 25;
        state ^= state >> 27;
        let j = ((state.wrapping_mul(0x2545_F491_4F6C_DD1D)) as usize) % (i + 1);
        items.swap(i, j);
    }
    items
}

#[test]
fn shuffle_order_is_the_xorshift_fisher_yates() {
    for (n, seed) in [(0usize, 1u64), (1, 7), (2, 3), (10, 12345), (50, 0xC0FFEE), (7, u64::MAX)] {
        assert_eq!(shuffle_order(n, seed), reference_shuffle(n, seed));
    }
}

#[test]
fn removing_a_twice_queued_id_leaves_the_queued_order_behind() {
    let mut q = Queue::new();
    q.replace(vec![track(1), track(2), track(1)], 0);
    q.remove(TrackId(1));
    assert_eq!(ids(&q), vec![2, 1]);
    q.set_shuffle(true);
    q.set_shuffle(false);
    assert_eq!(ids(&q), vec![2]);
}

#[test]
fn unshuffle_after_append_restores_the_queued_order() {
    let mut q = Queue::new();
    q.append(vec![track(1), track(2)]);
    q.append(vec![track(3), track(4)]);
    q.jump_to(2);
    q.set_shuffle(true);
    q.set_shuffle(false);
    assert_eq!(ids(&q), vec![1, 2, 3, 4]);
    assert_eq!(q.current().map(|t| t.id.0), Some(3));
}
