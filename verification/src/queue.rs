//! The ordered play queue with shuffle and repeat, and the small decisions of
//! the player around it.

use vstd::prelude::*;

use crate::models::{Track, TrackId};

verus! {

/// Repeat behaviour for the queue.
#[derive(Debug, Clone, Copy, PartialEq, Eq, Structural)]
pub enum RepeatMode {
    Off,
    All,
    One,
}

impl Default for RepeatMode {
    fn default() -> (r: Self)
        ensures
            r == RepeatMode::Off,
    {
        RepeatMode::Off
    }
}

/// The label shown for a repeat mode.
pub open spec fn repeat_label(m: RepeatMode) -> Seq<char> {
    match m {
        RepeatMode::Off => "Repeat: Off"@,
        RepeatMode::All => "Repeat: All"@,
        RepeatMode::One => "Repeat: One"@,
    }
}

impl RepeatMode {
    /// The mode the repeat button switches to: off, all, one, off again.
    pub fn cycled(self) -> (r: RepeatMode)
        ensures
            r == match self {
                RepeatMode::Off => RepeatMode::All,
                RepeatMode::All => RepeatMode::One,
                RepeatMode::One => RepeatMode::Off,
            },
    {
        match self {
            RepeatMode::Off => RepeatMode::All,
            RepeatMode::All => RepeatMode::One,
            RepeatMode::One => RepeatMode::Off,
        }
    }

    /// The tooltip of the repeat button in this mode.
    pub fn label(self) -> (r: &'static str)
        ensures
            r@ == repeat_label(self),
    {
        match self {
            RepeatMode::Off => "Repeat: Off",
            RepeatMode::All => "Repeat: All",
            RepeatMode::One => "Repeat: One",
        }
    }
}

/// Pressing the repeat button three times gives back the mode it started in.
pub proof fn law_repeat_cycle_has_period_three(m: RepeatMode)
    ensures
        cycle(cycle(cycle(m))) == m,
{
}

/// The mode after one press of the repeat button.
pub open spec fn cycle(m: RepeatMode) -> RepeatMode {
    match m {
        RepeatMode::Off => RepeatMode::All,
        RepeatMode::All => RepeatMode::One,
        RepeatMode::One => RepeatMode::Off,
    }
}

/// High-level playback state for the UI.
#[derive(Debug, Clone, Copy, PartialEq, Eq, Structural)]
pub enum PlaybackState {
    Stopped,
    Playing,
    Paused,
    Buffering,
}

impl Default for PlaybackState {
    fn default() -> (r: Self)
        ensures
            r == PlaybackState::Stopped,
    {
        PlaybackState::Stopped
    }
}

/// Commands forwarded from MPRIS into the UI.
#[derive(Debug, Clone, Copy, PartialEq, Eq, Structural)]
pub enum MprisCommand {
    Play,
    Pause,
    PlayPause,
    Stop,
    Next,
    Previous,
}

/// What the player does for a command.
#[derive(Debug, Clone, Copy, PartialEq, Eq, Structural)]
pub enum PlayerAction {
    Play,
    Pause,
    Stop,
    /// Advance the queue and start the track it gives.
    PlayNext,
    /// Step the queue back and start the track it gives.
    PlayPrevious,
}

/// The action for a media-key command, given the player's state: play/pause
/// pauses a playing player and plays otherwise.
pub fn command_action(cmd: MprisCommand, state: PlaybackState) -> (r: PlayerAction)
    ensures
        r == match cmd {
            MprisCommand::Play => PlayerAction::Play,
            MprisCommand::Pause => PlayerAction::Pause,
            MprisCommand::PlayPause => if state == PlaybackState::Playing {
                PlayerAction::Pause
            } else {
                PlayerAction::Play
            },
            MprisCommand::Stop => PlayerAction::Stop,
            MprisCommand::Next => PlayerAction::PlayNext,
            MprisCommand::Previous => PlayerAction::PlayPrevious,
        },
{
    match cmd {
        MprisCommand::Play => PlayerAction::Play,
        MprisCommand::Pause => PlayerAction::Pause,
        MprisCommand::PlayPause => if state == PlaybackState::Playing {
            PlayerAction::Pause
        } else {
            PlayerAction::Play
        },
        MprisCommand::Stop => PlayerAction::Stop,
        MprisCommand::Next => PlayerAction::PlayNext,
        MprisCommand::Previous => PlayerAction::PlayPrevious,
    }
}

/// The state of the audio pipeline, as GStreamer reports it.
#[derive(Debug, Clone, Copy, PartialEq, Eq, Structural)]
pub enum PipelineState {
    VoidPending,
    Null,
    Ready,
    Paused,
    Playing,
}

/// The playback state a pipeline state change announces; a change to a
/// pending state announces nothing.
pub fn announced_state(s: PipelineState) -> (r: Option<PlaybackState>)
    ensures
        r == match s {
            PipelineState::Playing => Some(PlaybackState::Playing),
            PipelineState::Paused => Some(PlaybackState::Paused),
            PipelineState::Ready | PipelineState::Null => Some(PlaybackState::Stopped),
            PipelineState::VoidPending => None,
        },
{
    match s {
        PipelineState::Playing => Some(PlaybackState::Playing),
        PipelineState::Paused => Some(PlaybackState::Paused),
        PipelineState::Ready | PipelineState::Null => Some(PlaybackState::Stopped),
        PipelineState::VoidPending => None,
    }
}

/// The playback state of a pipeline in a given state: playing, paused, or
/// else stopped.
pub fn current_state(s: PipelineState) -> (r: PlaybackState)
    ensures
        r == match s {
            PipelineState::Playing => PlaybackState::Playing,
            PipelineState::Paused => PlaybackState::Paused,
            _ => PlaybackState::Stopped,
        },
{
    match s {
        PipelineState::Playing => PlaybackState::Playing,
        PipelineState::Paused => PlaybackState::Paused,
        _ => PlaybackState::Stopped,
    }
}

/// What the play/pause button does: pause while playing, else play.
pub fn toggle_action(state: PlaybackState) -> (r: PlayerAction)
    ensures
        r == if state == PlaybackState::Playing {
            PlayerAction::Pause
        } else {
            PlayerAction::Play
        },
{
    if state == PlaybackState::Playing {
        PlayerAction::Pause
    } else {
        PlayerAction::Play
    }
}

/// The fraction in millionths clamped to at most one million (the whole
/// track).
pub open spec fn clamped_ppm(fraction_ppm: u64) -> u64 {
    if fraction_ppm > 1_000_000 {
        1_000_000
    } else {
        fraction_ppm
    }
}

/// Where a seek to a fraction of the track lands, with the fraction given
/// in millionths and clamped to one million: the duration times the
/// fraction, the product saturating at the largest `u64`, rounded down.
pub fn seek_target_ns(duration_ns: u64, fraction_ppm: u64) -> (r: u64)
    ensures
        r == (if duration_ns * clamped_ppm(fraction_ppm) > u64::MAX {
            u64::MAX
        } else {
            (duration_ns * clamped_ppm(fraction_ppm)) as u64
        }) / 1_000_000,
{
    let ppm: u64 = if fraction_ppm > 1_000_000 {
        1_000_000
    } else {
        fraction_ppm
    };
    let product: u64 = match duration_ns.checked_mul(ppm) {
        Some(p) => p,
        None => u64::MAX,
    };
    product / 1_000_000
}

/// The MPRIS playback status reported for a player state: buffering counts
/// as stopped.
#[derive(Debug, Clone, Copy, PartialEq, Eq, Structural)]
pub enum MprisStatus {
    Playing,
    Paused,
    Stopped,
}

/// The MPRIS status of a player state.
pub fn mpris_status(state: PlaybackState) -> (r: MprisStatus)
    ensures
        r == match state {
            PlaybackState::Playing => MprisStatus::Playing,
            PlaybackState::Paused => MprisStatus::Paused,
            _ => MprisStatus::Stopped,
        },
{
    match state {
        PlaybackState::Playing => MprisStatus::Playing,
        PlaybackState::Paused => MprisStatus::Paused,
        _ => MprisStatus::Stopped,
    }
}

// ---------------------------------------------------------------------------
// Sequences of tracks
// ---------------------------------------------------------------------------

/// `k` is the first position of a track with id `id`.
pub open spec fn is_first_of(s: Seq<Track>, id: TrackId, k: int) -> bool {
    0 <= k < s.len() && s[k].id == id && forall|j: int| 0 <= j < k ==> (#[trigger] s[j]).id != id
}

/// Some track of `s` has id `id`.
pub open spec fn has_id(s: Seq<Track>, id: TrackId) -> bool {
    exists|k: int| 0 <= k < s.len() && (#[trigger] s[k]).id == id
}

/// The first position of a track with id `id`, if any.
pub open spec fn find_id(s: Seq<Track>, id: TrackId) -> Option<int> {
    if has_id(s, id) {
        Some(choose|k: int| is_first_of(s, id, k))
    } else {
        None
    }
}

/// The tracks of `s` whose id is not `id`, in order.
pub open spec fn without_id(s: Seq<Track>, id: TrackId) -> Seq<Track>
    decreases s.len(),
{
    if s.len() == 0 {
        Seq::empty()
    } else if s.last().id == id {
        without_id(s.drop_last(), id)
    } else {
        without_id(s.drop_last(), id).push(s.last())
    }
}

/// No two tracks of `s` have id `id`.
pub open spec fn id_at_most_once(s: Seq<Track>, id: TrackId) -> bool {
    forall|i: int, j: int|
        0 <= i < j < s.len() && (#[trigger] s[i]).id == id ==> (#[trigger] s[j]).id != id
}

proof fn lemma_without_absent(s: Seq<Track>, id: TrackId)
    requires
        forall|j: int| 0 <= j < s.len() ==> (#[trigger] s[j]).id != id,
    ensures
        without_id(s, id) == s,
    decreases s.len(),
{
    if s.len() > 0 {
        let t = s.drop_last();
        assert forall|j: int| 0 <= j < t.len() implies (#[trigger] t[j]).id != id by {
            assert(t[j] == s[j]);
        }
        lemma_without_absent(t, id);
        assert(t.push(s.last()) =~= s);
    }
}

/// Where `id` occurs once, at `idx`, dropping every track with that id is
/// removing the track at `idx`.
proof fn lemma_without_single(s: Seq<Track>, id: TrackId, idx: int)
    requires
        0 <= idx < s.len(),
        s[idx].id == id,
        id_at_most_once(s, id),
    ensures
        without_id(s, id) == s.remove(idx),
    decreases s.len(),
{
    let t = s.drop_last();
    let n = s.len() - 1;
    if idx == n {
        assert forall|j: int| 0 <= j < t.len() implies (#[trigger] t[j]).id != id by {
            assert(t[j] == s[j]);
            assert(s[j].id == id ==> s[n].id != id);
        }
        lemma_without_absent(t, id);
        assert(s.remove(idx) =~= t);
    } else {
        assert(s[idx].id == id ==> s[n].id != id);
        assert(t[idx] == s[idx]);
        assert forall|i: int, j: int|
            0 <= i < j < t.len() && (#[trigger] t[i]).id == id implies (#[trigger] t[j]).id
            != id by {
            assert(t[i] == s[i] && t[j] == s[j]);
        }
        lemma_without_single(t, id, idx);
        assert(t.remove(idx).push(s.last()) =~= s.remove(idx));
    }
}

/// `p` lists each of `0..n` exactly once.
pub open spec fn is_permutation(p: Seq<int>, n: int) -> bool {
    &&& p.len() == n
    &&& forall|i: int| 0 <= i < n ==> 0 <= #[trigger] p[i] < n
    &&& forall|i: int, j: int| 0 <= i < j < n ==> #[trigger] p[i] != #[trigger] p[j]
}

/// `b` holds the tracks of `a`, each exactly once, in some order.
pub open spec fn is_rearrangement(a: Seq<Track>, b: Seq<Track>) -> bool {
    exists|p: Seq<int>|
        #[trigger] is_permutation(p, a.len() as int) && b.len() == a.len() && forall|i: int|
            0 <= i < b.len() ==> b[i] == a[p[i]]
}

proof fn lemma_first_unique(s: Seq<Track>, id: TrackId, k: int)
    requires
        is_first_of(s, id, k),
    ensures
        find_id(s, id) == Some(k),
{
    assert(s[k].id == id);
    assert(has_id(s, id));
    let c = choose|c: int| is_first_of(s, id, c);
    assert(is_first_of(s, id, c));
    if c < k {
        assert(s[c].id != id);
    }
    if k < c {
        assert(s[k].id != id);
    }
}

/// A track with id `id` at position `k` means a first such position
/// exists, and [`find_id`] gives it.
pub proof fn lemma_first_exists(s: Seq<Track>, id: TrackId, k: int)
    requires
        0 <= k < s.len(),
        s[k].id == id,
    ensures
        find_id(s, id) is Some,
        is_first_of(s, id, find_id(s, id)->0),
    decreases k,
{
    if exists|j: int| 0 <= j < k && (#[trigger] s[j]).id == id {
        let j = choose|j: int| 0 <= j < k && (#[trigger] s[j]).id == id;
        lemma_first_exists(s, id, j);
    } else {
        assert(is_first_of(s, id, k));
        lemma_first_unique(s, id, k);
    }
}

/// An exact copy of a list of tracks.
fn copy_tracks(v: &Vec<Track>) -> (r: Vec<Track>)
    ensures
        r@ == v@,
{
    let mut out: Vec<Track> = Vec::new();
    for i in 0..v.len()
        invariant
            out@ == v@.take(i as int),
    {
        out.push(v[i].copy());
        assert(out@ =~= v@.take(i + 1));
    }
    assert(v@.take(v@.len() as int) =~= v@);
    out
}

/// The first position of a track with id `id` in `v`.
fn position_of(v: &Vec<Track>, id: TrackId) -> (r: Option<usize>)
    ensures
        match r {
            Some(k) => is_first_of(v@, id, k as int) && find_id(v@, id) == Some(k as int),
            None => !has_id(v@, id) && find_id(v@, id) is None,
        },
{
    for k in 0..v.len()
        invariant
            forall|j: int| 0 <= j < k ==> (#[trigger] v@[j]).id != id,
    {
        if v[k].id == id {
            proof {
                lemma_first_unique(v@, id, k as int);
            }
            return Some(k);
        }
    }
    assert(!has_id(v@, id));
    None
}

/// The tracks of `v` whose id is not `id`, copied in order.
fn copy_without_id(v: &Vec<Track>, id: TrackId) -> (r: Vec<Track>)
    ensures
        r@ == without_id(v@, id),
{
    let mut out: Vec<Track> = Vec::new();
    for i in 0..v.len()
        invariant
            out@ == without_id(v@.take(i as int), id),
    {
        assert(v@.take(i + 1).drop_last() =~= v@.take(i as int));
        if v[i].id != id {
            out.push(v[i].copy());
        }
    }
    assert(v@.take(v@.len() as int) =~= v@);
    out
}

/// A point in time of the system clock.
#[verifier::external_type_specification]
#[verifier::external_body]
pub struct ExSystemTime(std::time::SystemTime);

/// Calls `SystemTime::now`. Nothing is stated of the result: it is the time
/// of the call.
#[verifier::external_body]
fn system_now() -> (r: std::time::SystemTime) {
    std::time::SystemTime::now()
}

/// Calls `SystemTime::duration_since(UNIX_EPOCH)` and reads the duration in
/// nanoseconds (truncated to 64 bits); `None` when the time is before the
/// epoch. Nothing is stated of the result: it depends on the clock.
#[verifier::external_body]
fn nanos_since_epoch(t: &std::time::SystemTime) -> (r: Option<u64>) {
    match t.duration_since(std::time::UNIX_EPOCH) {
        Ok(d) => Some(d.as_nanos() as u64),
        Err(_) => None,
    }
}

/// The seed of a shuffle: the current time in nanoseconds since the Unix
/// epoch, or a fixed value when the clock is set before it.
fn clock_seed() -> (r: u64) {
    match nanos_since_epoch(&system_now()) {
        Some(n) => n,
        None => 0xC0FFEE,
    }
}

/// The next state of the xorshift64* generator.
pub open spec fn xorshift(s: u64) -> u64 {
    let a = s ^ (s >> 12u64);
    let b = a ^ (a << 25u64);
    b ^ (b >> 27u64)
}

/// The position a Fisher-Yates step at `i` swaps with, for a generator that
/// has just reached state `s`: the scrambled state modulo `i + 1`.
pub open spec fn pick(s: u64, i: nat) -> int {
    (s.wrapping_mul(0x2545_F491_4F6C_DD1Du64) as int) % ((i + 1) as int)
}

/// `p` with the elements at `i` and `j` exchanged.
pub open spec fn swap_at(p: Seq<int>, i: int, j: int) -> Seq<int> {
    p.update(i, p[j]).update(j, p[i])
}

/// The Fisher-Yates steps from position `i` down to 1, starting from the
/// generator state `state`.
pub open spec fn fisher_yates(p: Seq<int>, state: u64, i: nat) -> Seq<int>
    decreases i,
{
    if i == 0 {
        p
    } else {
        let s = xorshift(state);
        fisher_yates(swap_at(p, i as int, pick(s, i)), s, (i - 1) as nat)
    }
}

/// The order `0..n` is shuffled to with seed `seed`: Fisher-Yates from the
/// last position down, each step drawing from an xorshift64* generator.
pub open spec fn shuffle_spec(n: nat, seed: u64) -> Seq<int> {
    let id = Seq::new(n, |k: int| k);
    if n < 2 {
        id
    } else {
        fisher_yates(id, seed, (n - 1) as nat)
    }
}

/// A Fisher-Yates order of `0..n` driven by an xorshift64* generator seeded
/// with `seed`.
pub fn shuffle_order(n: usize, seed: u64) -> (p: Vec<usize>)
    ensures
        p@.map_values(|x: usize| x as int) == shuffle_spec(n as nat, seed),
        is_permutation(p@.map_values(|x: usize| x as int), n as int),
{
    let mut p: Vec<usize> = Vec::new();
    for k in 0..n
        invariant
            p@.len() == k,
            forall|i: int| 0 <= i < k ==> p@[i] == i,
    {
        p.push(k);
    }
    assert(p@.map_values(|x: usize| x as int) =~= Seq::new(n as nat, |k: int| k));
    if n >= 2 {
        let mut state: u64 = seed;
        let mut i: usize = n - 1;
        while i >= 1
            invariant
                p@.len() == n,
                n >= 2,
                i < n,
                is_permutation(p@.map_values(|x: usize| x as int), n as int),
                fisher_yates(p@.map_values(|x: usize| x as int), state, i as nat) == shuffle_spec(
                    n as nat,
                    seed,
                ),
            decreases i,
        {
            state = state ^ (state >> 12u64);
            state = state ^ (state << 25u64);
            state = state ^ (state >> 27u64);
            let mixed: u64 = state.wrapping_mul(0x2545_F491_4F6C_DD1Du64);
            let j: usize = ((mixed % ((i as u64) + 1)) as usize);
            let a = p[i];
            let b = p[j];
            let ghost before = p@.map_values(|x: usize| x as int);
            p.set(i, b);
            p.set(j, a);
            let ghost after = p@.map_values(|x: usize| x as int);
            assert(after =~= swap_at(before, i as int, j as int));
            assert(j as int == pick(state, i as nat));
            assert(is_permutation(after, n as int)) by {
                assert forall|x: int, y: int| 0 <= x < y < n implies #[trigger] after[x]
                    != #[trigger] after[y] by {
                    let sx = if x == i {
                        j as int
                    } else if x == j {
                        i as int
                    } else {
                        x
                    };
                    let sy = if y == i {
                        j as int
                    } else if y == j {
                        i as int
                    } else {
                        y
                    };
                    assert(after[x] == before[sx]);
                    assert(after[y] == before[sy]);
                    assert(sx != sy);
                    if sx < sy {
                        assert(before[sx] != before[sy]);
                    } else {
                        assert(before[sy] != before[sx]);
                    }
                }
                assert forall|x: int| 0 <= x < n implies 0 <= #[trigger] after[x] < n by {
                    let sx = if x == i {
                        j as int
                    } else if x == j {
                        i as int
                    } else {
                        x
                    };
                    assert(after[x] == before[sx]);
                }
            }
            i = i - 1;
        }
    } else {
        assert(is_permutation(p@.map_values(|x: usize| x as int), n as int));
    }
    p
}

/// The tracks of `items` in the order `0..n` is shuffled to.
fn shuffled(items: &Vec<Track>, seed: u64) -> (r: Vec<Track>)
    ensures
        r@ == Seq::new(items@.len(), |k: int| items@[shuffle_spec(items@.len(), seed)[k]]),
        is_rearrangement(items@, r@),
{
    let n = items.len();
    let p = shuffle_order(n, seed);
    let ghost pv = p@.map_values(|x: usize| x as int);
    let mut out: Vec<Track> = Vec::new();
    for k in 0..n
        invariant
            n == items@.len(),
            pv == p@.map_values(|x: usize| x as int),
            is_permutation(pv, n as int),
            out@.len() == k,
            forall|i: int| 0 <= i < k ==> out@[i] == items@[pv[i]],
    {
        assert(pv[k as int] == p@[k as int] as int);
        assert(0 <= pv[k as int] < n);
        out.push(items[p[k]].copy());
    }
    assert(is_permutation(pv, items@.len() as int));
    assert(out@ =~= Seq::new(items@.len(), |k: int| items@[shuffle_spec(items@.len(), seed)[k]]));
    out
}

// ---------------------------------------------------------------------------
// The queue
// ---------------------------------------------------------------------------

/// Where `next` moves the current position of a non-empty queue of `len`
/// tracks.
pub open spec fn next_position(pos: Option<int>, len: int, repeat: RepeatMode) -> Option<int> {
    match repeat {
        RepeatMode::One => pos,
        RepeatMode::All => Some(
            match pos {
                Some(i) => (i + 1) % len,
                None => 0,
            },
        ),
        RepeatMode::Off => {
            let n = match pos {
                Some(i) => i + 1,
                None => 0,
            };
            if n >= len {
                None
            } else {
                Some(n)
            }
        },
    }
}

/// Where `previous` moves the current position of a non-empty queue of
/// `len` tracks.
pub open spec fn previous_position(pos: Option<int>, len: int, repeat: RepeatMode) -> int {
    match pos {
        Some(i) => if i == 0 {
            if repeat == RepeatMode::All {
                len - 1
            } else {
                0
            }
        } else {
            i - 1
        },
        None => 0,
    }
}

/// The position a queue starts at after `replace`: `start`, clamped to the
/// last track.
pub open spec fn start_position(start: int, len: int) -> Option<int> {
    if len == 0 {
        None
    } else if start < len - 1 {
        Some(start)
    } else {
        Some(len - 1)
    }
}

/// The first position after the current one.
pub open spec fn upcoming_start(pos: Option<int>) -> int {
    match pos {
        Some(i) => i + 1,
        None => 0,
    }
}

/// The position the current track keeps after the track at `idx` is
/// removed from a queue, which then holds `len` tracks.
pub open spec fn position_after_remove(pos: Option<int>, idx: int, len: int) -> Option<int> {
    match pos {
        Some(c) => if c == idx {
            if len == 0 {
                None
            } else if c < len - 1 {
                Some(c)
            } else {
                Some(len - 1)
            }
        } else if c > idx {
            Some(c - 1)
        } else {
            Some(c)
        },
        None => None,
    }
}

/// Removing a track at another position than the current one keeps the
/// same current track: the position after removal points at the track
/// that was current.
pub proof fn law_remove_keeps_current(s: Seq<Track>, c: int, idx: int)
    requires
        0 <= c < s.len(),
        0 <= idx < s.len(),
        c != idx,
    ensures
        position_after_remove(Some(c), idx, s.len() - 1) matches Some(p) && 0 <= p < s.len() - 1,
        track_at(s.remove(idx), position_after_remove(Some(c), idx, s.len() - 1)) == Some(s[c]),
{
    let p = position_after_remove(Some(c), idx, s.len() - 1)->0;
    assert(s.remove(idx)[p] == s[c]);
}

/// Removing the current track makes the track that followed it current, or
/// the one before it when it was the last; removing the only track leaves
/// none current, and with no current track none becomes current.
pub proof fn law_remove_current_moves_on(s: Seq<Track>, c: int, idx: int)
    requires
        0 <= c < s.len(),
        0 <= idx < s.len(),
    ensures
        s.len() == 1 ==> position_after_remove(Some(c), c, 0) is None,
        s.len() > 1 && c < s.len() - 1 ==> track_at(
            s.remove(c),
            position_after_remove(Some(c), c, s.len() - 1),
        ) == Some(s[c + 1]),
        s.len() > 1 && c == s.len() - 1 ==> track_at(
            s.remove(c),
            position_after_remove(Some(c), c, s.len() - 1),
        ) == Some(s[c - 1]),
        position_after_remove(None, idx, s.len() - 1) is None,
{
    if s.len() > 1 {
        if c < s.len() - 1 {
            assert(s.remove(c)[c] == s[c + 1]);
        } else {
            assert(s.remove(c)[c - 1] == s[c - 1]);
        }
    }
}

/// The track at an optional position.
pub open spec fn track_at(s: Seq<Track>, pos: Option<int>) -> Option<Track> {
    match pos {
        Some(i) => Some(s[i]),
        None => None,
    }
}

/// The tracks after shuffling `s` around the current track with id `cur`:
/// the first track with that id leads, and the other tracks (every track
/// with another id) follow in some order.
pub open spec fn shuffle_result(s: Seq<Track>, cur: Option<TrackId>, r: Seq<Track>) -> bool {
    match cur {
        Some(id) => match find_id(s, id) {
            Some(k) => r.len() >= 1 && r[0] == s[k] && is_rearrangement(
                without_id(s, id),
                r.drop_first(),
            ),
            None => is_rearrangement(without_id(s, id), r),
        },
        None => is_rearrangement(s, r),
    }
}

/// What turning shuffle on or off does to a queue.
pub open spec fn shuffle_step(q: Queue, r: Queue, enabled: bool) -> bool {
    &&& r.shuffled() == enabled
    &&& r.repeat() == q.repeat()
    &&& r.queued_order() == q.queued_order()
    &&& q.shuffled() == enabled ==> r.items() == q.items() && r.position() == q.position()
    &&& !q.shuffled() && enabled ==> shuffle_result(
        q.items(),
        match q.current_track() {
            Some(t) => Some(t.id),
            None => None,
        },
        r.items(),
    ) && r.position() == if r.items().len() == 0 {
        None
    } else {
        Some(0int)
    }
    &&& q.shuffled() && !enabled ==> r.items() == q.queued_order() && r.position() == match q.current_track() {
        Some(t) => find_id(q.queued_order(), t.id),
        None => None,
    }
}

/// In-memory playback queue.
#[derive(Debug)]
pub struct Queue {
    tracks: Vec<Track>,
    current: Option<usize>,
    shuffle: bool,
    repeat: RepeatMode,
    /// The order the tracks were queued in, restored when shuffle is turned off.
    order_backup: Vec<Track>,
}

impl Queue {
    /// The tracks in play order.
    pub closed spec fn items(self) -> Seq<Track> {
        self.tracks@
    }

    /// The position of the current track, if any.
    pub closed spec fn position(self) -> Option<int> {
        match self.current {
            Some(i) => Some(i as int),
            None => None,
        }
    }

    /// Whether shuffle is on.
    pub closed spec fn shuffled(self) -> bool {
        self.shuffle
    }

    /// The repeat mode.
    pub closed spec fn repeat(self) -> RepeatMode {
        self.repeat
    }

    /// The order restored when shuffle is turned off.
    pub closed spec fn queued_order(self) -> Seq<Track> {
        self.order_backup@
    }

    /// The queue is well formed: the current position is a track's.
    pub open spec fn wf(self) -> bool {
        match self.position() {
            Some(i) => 0 <= i < self.items().len(),
            None => true,
        }
    }

    /// Without shuffle, the play order is the queued order.
    pub open spec fn in_sync(self) -> bool {
        !self.shuffled() ==> self.items() == self.queued_order()
    }

    /// The current track, if any.
    pub open spec fn current_track(self) -> Option<Track> {
        track_at(self.items(), self.position())
    }

    /// An empty queue without shuffle or repeat.
    pub fn new() -> (r: Self)
        ensures
            r.wf(),
            r.items().len() == 0,
            r.position() is None,
            !r.shuffled(),
            r.repeat() == RepeatMode::Off,
            r.queued_order().len() == 0,
            r.in_sync(),
    {
        Queue {
            tracks: Vec::new(),
            current: None,
            shuffle: false,
            repeat: RepeatMode::Off,
            order_backup: Vec::new(),
        }
    }

    /// The tracks in play order.
    pub fn tracks(&self) -> (r: &[Track])
        ensures
            r@ == self.items(),
    {
        self.tracks.as_slice()
    }

    /// The current track, if any.
    pub fn current(&self) -> (r: Option<&Track>)
        requires
            self.wf(),
        ensures
            match r {
                Some(t) => self.current_track() == Some(*t),
                None => self.current_track() is None,
            },
    {
        match self.current {
            Some(i) => Some(&self.tracks[i]),
            None => None,
        }
    }

    /// The position of the current track, if any.
    pub fn current_index(&self) -> (r: Option<usize>)
        ensures
            match r {
                Some(i) => self.position() == Some(i as int),
                None => self.position() is None,
            },
    {
        self.current
    }

    /// Whether shuffle is on.
    pub fn shuffle_enabled(&self) -> (r: bool)
        ensures
            r == self.shuffled(),
    {
        self.shuffle
    }

    /// The repeat mode.
    pub fn repeat_mode(&self) -> (r: RepeatMode)
        ensures
            r == self.repeat(),
    {
        self.repeat
    }

    /// Change the repeat mode.
    pub fn set_repeat(&mut self, mode: RepeatMode)
        requires
            old(self).wf(),
        ensures
            final(self).wf(),
            final(self).repeat() == mode,
            old(self).in_sync() ==> final(self).in_sync(),
            final(self).items() == old(self).items(),
            final(self).position() == old(self).position(),
            final(self).shuffled() == old(self).shuffled(),
            final(self).queued_order() == old(self).queued_order(),
    {
        self.repeat = mode;
    }

    /// Empty the queue.
    pub fn clear(&mut self)
        requires
            old(self).wf(),
        ensures
            final(self).wf(),
            final(self).items().len() == 0,
            final(self).queued_order().len() == 0,
            final(self).position() is None,
            final(self).shuffled() == old(self).shuffled(),
            final(self).repeat() == old(self).repeat(),
            final(self).in_sync(),
    {
        self.tracks.clear();
        self.order_backup.clear();
        self.current = None;
    }

    /// Put the current track first and the others in a random order.
    fn apply_shuffle(&mut self)
        requires
            old(self).wf(),
        ensures
            final(self).wf(),
            shuffle_result(
                old(self).items(),
                match old(self).current_track() {
                    Some(t) => Some(t.id),
                    None => None,
                },
                final(self).items(),
            ),
            final(self).position() == if final(self).items().len() == 0 {
                None
            } else {
                Some(0int)
            },
            final(self).shuffled() == old(self).shuffled(),
            final(self).repeat() == old(self).repeat(),
            final(self).queued_order() == old(self).queued_order(),
    {
        let current_id: Option<TrackId> = match self.current {
            Some(i) => Some(self.tracks[i].id),
            None => None,
        };
        let rest = match current_id {
            Some(id) => copy_without_id(&self.tracks, id),
            None => copy_tracks(&self.tracks),
        };
        let mixed = shuffled(&rest, clock_seed());
        let mut new_tracks: Vec<Track> = Vec::new();
        if let Some(id) = current_id {
            if let Some(k) = position_of(&self.tracks, id) {
                new_tracks.push(self.tracks[k].copy());
            }
        }
        let ghost head = new_tracks@;
        let mut m = mixed;
        new_tracks.append(&mut m);
        proof {
            if head.len() == 0 {
                assert(new_tracks@ =~= mixed@);
            } else {
                assert(new_tracks@.drop_first() =~= mixed@);
            }
        }
        self.tracks = new_tracks;
        self.current = if self.tracks.len() == 0 {
            None
        } else {
            Some(0)
        };
    }

    /// Replace the queue and start at `start` (clamped to the last track).
    pub fn replace(&mut self, tracks: Vec<Track>, start: usize)
        requires
            old(self).wf(),
        ensures
            final(self).wf(),
            final(self).queued_order() == tracks@,
            !old(self).shuffled() ==> final(self).items() == tracks@ && final(self).position()
                == start_position(start as int, tracks@.len() as int),
            old(self).shuffled() ==> shuffle_result(
                tracks@,
                match track_at(tracks@, start_position(start as int, tracks@.len() as int)) {
                    Some(t) => Some(t.id),
                    None => None,
                },
                final(self).items(),
            ) && final(self).position() == if final(self).items().len() == 0 {
                None
            } else {
                Some(0int)
            },
            final(self).shuffled() == old(self).shuffled(),
            final(self).repeat() == old(self).repeat(),
            final(self).in_sync(),
    {
        self.order_backup = copy_tracks(&tracks);
        self.tracks = tracks;
        self.current = if self.tracks.len() == 0 {
            None
        } else if start < self.tracks.len() - 1 {
            Some(start)
        } else {
            Some(self.tracks.len() - 1)
        };
        if self.shuffle {
            self.apply_shuffle();
        }
    }

    /// Add tracks at the end; into an empty queue, this starts it at the
    /// first of them.
    pub fn append(&mut self, tracks: Vec<Track>)
        requires
            old(self).wf(),
        ensures
            final(self).wf(),
            final(self).shuffled() == old(self).shuffled(),
            final(self).repeat() == old(self).repeat(),
            old(self).in_sync() ==> final(self).in_sync(),
            old(self).items().len() == 0 && tracks@.len() > 0 ==> final(self).queued_order()
                == tracks@ && (!old(self).shuffled() ==> final(self).items() == tracks@
                && final(self).position() == Some(0int)) && (old(self).shuffled()
                ==> shuffle_result(tracks@, Some(tracks@[0].id), final(self).items())
                && final(self).position() == Some(0int)),
            !(old(self).items().len() == 0 && tracks@.len() > 0) ==> final(self).items()
                == old(self).items() + tracks@ && final(self).queued_order() == old(
                self,
            ).queued_order() + tracks@ && final(self).position() == old(self).position(),
    {
        if self.tracks.len() == 0 && tracks.len() > 0 {
            let ghost incoming = tracks@;
            self.replace(tracks, 0);
            proof {
                if self.shuffle {
                    assert(start_position(0, incoming.len() as int) == Some(0int));
                    assert(self.tracks@.len() >= 1);
                }
            }
            return;
        }
        let mut extra = copy_tracks(&tracks);
        self.order_backup.append(&mut extra);
        let mut t = tracks;
        self.tracks.append(&mut t);
    }

    /// Turn shuffle on or off. Turning it on puts the current track first and
    /// the others in a random order; turning it off restores the queued
    /// order, keeping the current track current.
    pub fn set_shuffle(&mut self, enabled: bool)
        requires
            old(self).wf(),
        ensures
            final(self).wf(),
            shuffle_step(*old(self), *final(self), enabled),
            enabled || old(self).in_sync() ==> final(self).in_sync(),
    {
        if self.shuffle == enabled {
            return;
        }
        self.shuffle = enabled;
        if enabled {
            self.apply_shuffle();
        } else {
            let current_id: Option<TrackId> = match self.current {
                Some(i) => Some(self.tracks[i].id),
                None => None,
            };
            self.tracks = copy_tracks(&self.order_backup);
            self.current = match current_id {
                Some(id) => position_of(&self.tracks, id),
                None => None,
            };
        }
    }

    /// Make the track at `index` current and return it; out-of-range indexes
    /// change nothing.
    pub fn jump_to(&mut self, index: usize) -> (r: Option<&Track>)
        requires
            old(self).wf(),
        ensures
            final(self).wf(),
            final(self).items() == old(self).items(),
            final(self).shuffled() == old(self).shuffled(),
            final(self).repeat() == old(self).repeat(),
            final(self).queued_order() == old(self).queued_order(),
            old(self).in_sync() ==> final(self).in_sync(),
            index < old(self).items().len() ==> final(self).position() == Some(index as int)
                && (r matches Some(t) && *t == old(self).items()[index as int]),
            index >= old(self).items().len() ==> final(self).position() == old(self).position()
                && r is None,
    {
        if index < self.tracks.len() {
            self.current = Some(index);
            Some(&self.tracks[index])
        } else {
            None
        }
    }

    /// Advance to the next track according to the repeat mode and return the
    /// new current track.
    pub fn next(&mut self) -> (r: Option<&Track>)
        requires
            old(self).wf(),
        ensures
            final(self).wf(),
            final(self).items() == old(self).items(),
            final(self).shuffled() == old(self).shuffled(),
            final(self).repeat() == old(self).repeat(),
            final(self).queued_order() == old(self).queued_order(),
            old(self).in_sync() ==> final(self).in_sync(),
            old(self).items().len() == 0 ==> final(self).position() == old(self).position()
                && r is None,
            old(self).items().len() > 0 ==> final(self).position() == next_position(
                old(self).position(),
                old(self).items().len() as int,
                old(self).repeat(),
            ),
            old(self).items().len() > 0 ==> match r {
                Some(t) => final(self).current_track() == Some(*t),
                None => final(self).current_track() is None,
            },
    {
        let len = self.tracks.len();
        if len == 0 {
            return None;
        }
        match self.repeat {
            RepeatMode::One => {
                match self.current {
                    Some(i) => Some(&self.tracks[i]),
                    None => None,
                }
            },
            RepeatMode::All => {
                let next: usize = match self.current {
                    Some(i) => (i + 1) % len,
                    None => 0,
                };
                self.current = Some(next);
                Some(&self.tracks[next])
            },
            RepeatMode::Off => {
                let next: usize = match self.current {
                    Some(i) => i + 1,
                    None => 0,
                };
                if next >= len {
                    self.current = None;
                    None
                } else {
                    self.current = Some(next);
                    Some(&self.tracks[next])
                }
            },
        }
    }

    /// Step back to the previous track (wrapping to the last one when
    /// repeating all) and return the new current track.
    pub fn previous(&mut self) -> (r: Option<&Track>)
        requires
            old(self).wf(),
        ensures
            final(self).wf(),
            final(self).items() == old(self).items(),
            final(self).shuffled() == old(self).shuffled(),
            final(self).repeat() == old(self).repeat(),
            final(self).queued_order() == old(self).queued_order(),
            old(self).in_sync() ==> final(self).in_sync(),
            old(self).items().len() == 0 ==> final(self).position() == old(self).position()
                && r is None,
            old(self).items().len() > 0 ==> final(self).position() == Some(
                previous_position(
                    old(self).position(),
                    old(self).items().len() as int,
                    old(self).repeat(),
                ),
            ) && (r matches Some(t) && final(self).current_track() == Some(*t)),
    {
        let len = self.tracks.len();
        if len == 0 {
            return None;
        }
        let prev: usize = match self.current {
            Some(i) => if i == 0 {
                if self.repeat == RepeatMode::All {
                    len - 1
                } else {
                    0
                }
            } else {
                i - 1
            },
            None => 0,
        };
        self.current = Some(prev);
        Some(&self.tracks[prev])
    }

    /// Remove the first track with id `id` from the play order (and every
    /// track with that id from the queued order), keeping the current
    /// position on the same track when another track was removed.
    pub fn remove(&mut self, id: TrackId)
        requires
            old(self).wf(),
        ensures
            final(self).wf(),
            final(self).shuffled() == old(self).shuffled(),
            final(self).repeat() == old(self).repeat(),
            old(self).in_sync() && id_at_most_once(old(self).items(), id)
                ==> final(self).in_sync(),
            (match (find_id(old(self).items(), id), old(self).position()) {
                (Some(idx), Some(c)) => c != idx,
                _ => true,
            }) ==> final(self).current_track() == old(self).current_track(),
            match find_id(old(self).items(), id) {
                Some(idx) => final(self).items() == old(self).items().remove(idx)
                    && final(self).queued_order() == without_id(old(self).queued_order(), id)
                    && final(self).position() == position_after_remove(
                    old(self).position(),
                    idx,
                    final(self).items().len() as int,
                ),
                None => final(self).items() == old(self).items() && final(self).queued_order()
                    == old(self).queued_order() && final(self).position() == old(
                    self,
                ).position(),
            },
    {
        if let Some(idx) = position_of(&self.tracks, id) {
            proof {
                if old(self).in_sync() && !self.shuffle && id_at_most_once(self.tracks@, id) {
                    lemma_without_single(self.tracks@, id, idx as int);
                }
            }
            self.tracks.remove(idx);
            self.order_backup = copy_without_id(&self.order_backup, id);
            let len = self.tracks.len();
            self.current = match self.current {
                Some(c) => if c == idx {
                    if len == 0 {
                        None
                    } else if c < len - 1 {
                        Some(c)
                    } else {
                        Some(len - 1)
                    }
                } else if c > idx {
                    Some(c - 1)
                } else {
                    Some(c)
                },
                None => None,
            };
        }
    }

    /// Upcoming tracks after the current one, in play order.
    pub fn upcoming(&self) -> (r: Vec<Track>)
        requires
            self.wf(),
        ensures
            r@ == self.items().skip(upcoming_start(self.position())),
    {
        let start: usize = match self.current {
            Some(i) => i + 1,
            None => 0,
        };
        let mut out: Vec<Track> = Vec::new();
        for k in start..self.tracks.len()
            invariant
                start <= self.tracks@.len(),
                out@ == self.tracks@.subrange(start as int, k as int),
        {
            out.push(self.tracks[k].copy());
            assert(out@ =~= self.tracks@.subrange(start as int, k + 1));
        }
        assert(self.tracks@.skip(start as int) =~= self.tracks@.subrange(
            start as int,
            self.tracks@.len() as int,
        ));
        out
    }
}

// ---------------------------------------------------------------------------
// Laws of the queue
// ---------------------------------------------------------------------------

/// With repeat-all, advancing `k` times moves the position `k` places
/// forward around the queue; after as many steps as there are tracks, the
/// same track plays again.
pub proof fn law_repeat_all_cycles(i: int, len: int, k: nat)
    requires
        0 <= i < len,
    ensures
        iterate_next(Some(i), len, RepeatMode::All, k) == Some((i + k) % len),
        iterate_next(Some(i), len, RepeatMode::All, len as nat) == Some(i),
    decreases k,
{
    lemma_iterate_all(i, len, k);
    lemma_iterate_all(i, len, len as nat);
    assert((i + len) % len == i) by (nonlinear_arith)
        requires
            0 <= i < len,
    ;
}

proof fn lemma_iterate_all(i: int, len: int, k: nat)
    requires
        0 <= i < len,
    ensures
        iterate_next(Some(i), len, RepeatMode::All, k) == Some((i + k) % len),
    decreases k,
{
    if k == 0 {
        assert(i % len == i) by (nonlinear_arith)
            requires
                0 <= i < len,
        ;
    } else {
        lemma_iterate_all(i, len, (k - 1) as nat);
        let p = (i + k - 1) % len;
        assert(0 <= p < len) by (nonlinear_arith)
            requires
                len > 0,
                p == (i + k - 1) % len,
        ;
        assert((p + 1) % len == (i + k) % len) by (nonlinear_arith)
            requires
                len > 0,
                p == (i + k - 1) % len,
        ;
    }
}

/// The position after advancing `k` times.
pub open spec fn iterate_next(pos: Option<int>, len: int, repeat: RepeatMode, k: nat) -> Option<
    int,
>
    decreases k,
{
    if k == 0 {
        pos
    } else {
        next_position(iterate_next(pos, len, repeat, (k - 1) as nat), len, repeat)
    }
}

/// Without repeat, stepping back from any track but the first and then
/// forward again returns to the same track; with repeat-all this holds for
/// every track.
pub proof fn law_previous_then_next(i: int, len: int, repeat: RepeatMode)
    requires
        0 <= i < len,
        repeat != RepeatMode::One,
        repeat == RepeatMode::Off ==> i > 0,
    ensures
        next_position(Some(previous_position(Some(i), len, repeat)), len, repeat) == Some(i),
{
    if repeat == RepeatMode::All && i == 0 {
        assert((len - 1 + 1) % len == 0) by (nonlinear_arith)
            requires
                len > 0,
        ;
    } else if repeat == RepeatMode::All {
        assert((i - 1 + 1) % len == i) by (nonlinear_arith)
            requires
                0 < i < len,
        ;
    }
}

/// Turning shuffle on and then off again restores the play order the queue
/// had before, and the current track stays current, on a queue in sync
/// (see [`Queue::in_sync`]): every operation keeps a queue in sync, except
/// removing an id that occurs twice in the play order.
pub proof fn law_unshuffle_restores_order(q0: Queue, q1: Queue, q2: Queue)
    requires
        q0.wf(),
        !q0.shuffled(),
        q0.in_sync(),
        shuffle_step(q0, q1, true),
        shuffle_step(q1, q2, false),
    ensures
        q2.items() == q0.items(),
        q2.shuffled() == q0.shuffled(),
        q0.current_track() matches Some(t) ==> q2.current_track() matches Some(u) && u.id == t.id,
{
    if let Some(t) = q0.current_track() {
        let k = q0.position()->0;
        lemma_first_exists(q0.items(), t.id, k);
        let f = find_id(q0.items(), t.id)->0;
        assert(q1.items()[0] == q0.items()[f]);
        assert(q1.current_track() == Some(q1.items()[0]));
        assert(q2.position() == find_id(q1.queued_order(), t.id));
    }
}

} // verus!
