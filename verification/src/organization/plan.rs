//! Building, previewing, executing and undoing organization plans.
//!
//! Building a plan is computation only: the caller answers, for each
//! destination, whether it already exists on disk. Executing a plan moves
//! files; the
//! moves themselves are performed by the caller, one step at a time, driven by
//! an [`Execution`], which decides what to move next and records what was
//! moved in an [`UndoLog`].

use vstd::prelude::*;

use crate::models::TrackMetadata;
use crate::organization::template::{render_spec, Template};
use crate::paths::{
    path_extension, path_join, paths_equal, spec_path_eq, spec_path_extension, spec_path_join,
};
use crate::text::{ascii_lower_seq, ascii_lowercase, chars_of, push_all, string_of};

verus! {

/// A single proposed file move.
#[derive(Debug, Clone, PartialEq, Eq)]
pub struct FileMove {
    pub from: String,
    pub to: String,
}

impl FileMove {
    /// Whether this move leaves the file where it is.
    pub fn is_noop(&self) -> (r: bool)
        ensures
            r == spec_path_eq(self.from@, self.to@),
    {
        paths_equal(self.from.as_str(), self.to.as_str())
    }

    /// An exact copy.
    pub fn copy(&self) -> (r: Self)
        ensures
            r == *self,
    {
        FileMove { from: self.from.clone(), to: self.to.clone() }
    }
}

/// The status of a planned entry, surfaced to the user during preview.
#[derive(Debug, Clone, PartialEq, Eq)]
pub enum PlanEntry {
    /// The file is already in the right place.
    AlreadyOrganized(String),
    /// The file will be moved.
    Move(FileMove),
    /// The move was skipped because the destination already exists or another
    /// file of the plan already goes there (a likely duplicate).
    Conflict { file_move: FileMove },
}

/// A reviewed, ready-to-execute set of moves rooted at a library directory.
#[derive(Debug, Clone, PartialEq)]
pub struct OrganizationPlan {
    pub entries: Vec<PlanEntry>,
}

impl Default for OrganizationPlan {
    fn default() -> (r: Self)
        ensures
            r.entries@.len() == 0,
    {
        OrganizationPlan { entries: Vec::new() }
    }
}

/// Where a file at `from` with metadata `meta` belongs: the rendered template
/// joined onto `root`, followed by `.` and the source's extension in lower
/// case when it has a non-empty one. The whole rendered name is kept, dots
/// in it included.
pub open spec fn target_path(
    root: Seq<char>,
    t: Template,
    from: Seq<char>,
    meta: TrackMetadata,
) -> Seq<char> {
    let joined = spec_path_join(root, render_spec(t, meta));
    match spec_path_extension(from) {
        Some(e) => if ascii_lower_seq(e).len() > 0 {
            joined + seq!['.'] + ascii_lower_seq(e)
        } else {
            joined
        },
        None => joined,
    }
}

/// Each track's current path with the path it belongs at.
pub open spec fn target_moves(
    root: Seq<char>,
    t: Template,
    tracks: Seq<(String, TrackMetadata)>,
) -> Seq<(Seq<char>, Seq<char>)> {
    tracks.map_values(
        |p: (String, TrackMetadata)| (p.0@, target_path(root, t, p.0@, p.1)),
    )
}

/// Whether an earlier entry already moves a file to `to`.
pub open spec fn claimed(entries: Seq<PlanEntry>, to: Seq<char>) -> bool {
    exists|j: int|
        0 <= j < entries.len() && (#[trigger] entries[j]) is Move && spec_path_eq(
            to,
            entries[j]->Move_0.to@,
        )
}

/// The entry planned for a file at `from` going to `to`, given whether `to`
/// exists on disk and the entries planned before it.
pub open spec fn entry_for(
    e: PlanEntry,
    from: Seq<char>,
    to: Seq<char>,
    on_disk: bool,
    before: Seq<PlanEntry>,
) -> bool {
    if spec_path_eq(to, from) {
        e matches PlanEntry::AlreadyOrganized(p) && p@ == from
    } else if on_disk || claimed(before, to) {
        e matches PlanEntry::Conflict { file_move } && file_move.from@ == from
            && file_move.to@ == to
    } else {
        e matches PlanEntry::Move(m) && m.from@ == from && m.to@ == to
    }
}

/// Every entry is planned as [`entry_for`] says, for the given moves and
/// disk answers.
pub open spec fn planned(
    entries: Seq<PlanEntry>,
    moves: Seq<(Seq<char>, Seq<char>)>,
    on_disk: Seq<bool>,
) -> bool {
    &&& entries.len() == moves.len()
    &&& forall|i: int|
        0 <= i < entries.len() ==> entry_for(
            #[trigger] entries[i],
            moves[i].0,
            moves[i].1,
            on_disk[i],
            entries.take(i),
        )
}

/// No two moves of a plan share a destination.
pub open spec fn moves_distinct(entries: Seq<PlanEntry>) -> bool {
    forall|i: int, j: int|
        0 <= i < j < entries.len() && (#[trigger] entries[i]) is Move && (#[trigger] entries[j]) is Move
            ==> !spec_path_eq(entries[j]->Move_0.to@, entries[i]->Move_0.to@)
}

/// No move targets a path that the file system reported as existing.
pub open spec fn moves_avoid_disk(
    entries: Seq<PlanEntry>,
    moves: Seq<(Seq<char>, Seq<char>)>,
    on_disk: Seq<bool>,
) -> bool {
    forall|i: int| 0 <= i < entries.len() && #[trigger] entries[i] is Move ==> !on_disk[i]
}

/// Moves of a plan never share a destination, and never target an existing
/// file: whatever two tracks render to, at most one of them is moved there.
pub proof fn law_plan_moves_are_safe(
    entries: Seq<PlanEntry>,
    moves: Seq<(Seq<char>, Seq<char>)>,
    on_disk: Seq<bool>,
)
    requires
        planned(entries, moves, on_disk),
    ensures
        moves_distinct(entries),
        moves_avoid_disk(entries, moves, on_disk),
{
    assert forall|i: int, j: int|
        0 <= i < j < entries.len() && (#[trigger] entries[i]) is Move && (#[trigger] entries[j]) is Move
            implies !spec_path_eq(entries[j]->Move_0.to@, entries[i]->Move_0.to@) by {
        let a = entries[i]->Move_0;
        let b = entries[j]->Move_0;
        assert(entry_for(entries[j], moves[j].0, moves[j].1, on_disk[j], entries.take(j)));
        assert(entries.take(j)[i] == entries[i]);
        if spec_path_eq(b.to@, a.to@) {
            assert(claimed(entries.take(j), moves[j].1));
        }
    }
    assert forall|i: int| 0 <= i < entries.len() && #[trigger] entries[i] is Move implies !on_disk[
        i] by {
        assert(entry_for(entries[i], moves[i].0, moves[i].1, on_disk[i], entries.take(i)));
    }
}

/// Of two files bound for the same place, the later one is never moved once
/// the earlier one is: it is a conflict, unless it is already there.
pub proof fn law_same_destination_conflicts(
    entries: Seq<PlanEntry>,
    moves: Seq<(Seq<char>, Seq<char>)>,
    on_disk: Seq<bool>,
    i: int,
    j: int,
)
    requires
        planned(entries, moves, on_disk),
        0 <= i < j < entries.len(),
        entries[i] is Move,
        spec_path_eq(moves[i].1, moves[j].1),
        !spec_path_eq(moves[j].1, moves[j].0),
    ensures
        entries[j] is Conflict,
{
    assert(entry_for(entries[i], moves[i].0, moves[i].1, on_disk[i], entries.take(i)));
    assert(entry_for(entries[j], moves[j].0, moves[j].1, on_disk[j], entries.take(j)));
    assert(entries.take(j)[i] == entries[i]);
    assert(claimed(entries.take(j), moves[j].1));
}

/// The moves that a plan will perform, in order.
pub open spec fn spec_pending(entries: Seq<PlanEntry>) -> Seq<FileMove>
    decreases entries.len(),
{
    if entries.len() == 0 {
        Seq::empty()
    } else {
        let prev = spec_pending(entries.drop_last());
        match entries.last() {
            PlanEntry::Move(m) => prev.push(m),
            _ => prev,
        }
    }
}

/// The number of conflicting entries of a plan.
pub open spec fn spec_conflicts(entries: Seq<PlanEntry>) -> nat
    decreases entries.len(),
{
    if entries.len() == 0 {
        0
    } else {
        spec_conflicts(entries.drop_last()) + if entries.last() is Conflict {
            1nat
        } else {
            0nat
        }
    }
}

/// The number of entries already in place.
pub open spec fn spec_already(entries: Seq<PlanEntry>) -> nat
    decreases entries.len(),
{
    if entries.len() == 0 {
        0
    } else {
        spec_already(entries.drop_last()) + if entries.last() is AlreadyOrganized {
            1nat
        } else {
            0nat
        }
    }
}

/// Every entry of a plan is a move, a conflict or already in place.
pub proof fn law_entries_partition(entries: Seq<PlanEntry>)
    ensures
        spec_pending(entries).len() + spec_conflicts(entries) + spec_already(entries)
            == entries.len(),
    decreases entries.len(),
{
    if entries.len() > 0 {
        law_entries_partition(entries.drop_last());
    }
}

fn already_claimed(entries: &Vec<PlanEntry>, to: &String) -> (r: bool)
    ensures
        r == claimed(entries@, to@),
{
    for j in 0..entries.len()
        invariant
            !claimed(entries@.take(j as int), to@),
    {
        let ghost pre = entries@.take(j as int);
        let ghost next = entries@.take(j + 1);
        if let PlanEntry::Move(m) = &entries[j] {
            if paths_equal(to.as_str(), m.to.as_str()) {
                assert(next[j as int] == entries@[j as int]);
                assert(claimed(entries@, to@));
                return true;
            }
        }
        assert forall|k: int|
            0 <= k < next.len() && (#[trigger] next[k]) is Move implies !spec_path_eq(
            to@,
            next[k]->Move_0.to@,
        ) by {
            if k < j {
                assert(pre[k] == next[k]);
            }
        }
    }
    assert(entries@.take(entries@.len() as int) =~= entries@);
    false
}

impl OrganizationPlan {
    /// Where a file at `from` belongs under `root` according to `template`.
    pub fn target_for(
        root: &str,
        template: &Template,
        from: &str,
        meta: &TrackMetadata,
    ) -> (r: String)
        ensures
            r@ == target_path(root@, *template, from@, *meta),
    {
        let relative = template.render(meta);
        let joined = path_join(root, relative.as_str());
        match path_extension(from) {
            Some(e) => {
                let lower = ascii_lowercase(&chars_of(e.as_str()));
                if lower.len() == 0 {
                    joined
                } else {
                    let mut out = chars_of(joined.as_str());
                    out.push('.');
                    push_all(&mut out, &lower);
                    string_of(&out)
                }
            },
            None => joined,
        }
    }

    /// Plan the moves `(from, to)` in order, given for each destination
    /// whether it already exists on disk.
    ///
    /// A file whose destination is itself is already organized; a move whose
    /// destination exists on disk, or is already the destination of an earlier
    /// move of this plan, is a conflict; every other move is planned.
    pub fn classify(moves: Vec<(String, String)>, on_disk: &Vec<bool>) -> (r: Self)
        requires
            on_disk@.len() == moves@.len(),
        ensures
            planned(
                r.entries@,
                moves@.map_values(|p: (String, String)| (p.0@, p.1@)),
                on_disk@,
            ),
            moves_distinct(r.entries@),
    {
        let ghost mv = moves@.map_values(|p: (String, String)| (p.0@, p.1@));
        let mut entries: Vec<PlanEntry> = Vec::new();
        for i in 0..moves.len()
            invariant
                on_disk@.len() == moves@.len(),
                mv == moves@.map_values(|p: (String, String)| (p.0@, p.1@)),
                entries@.len() == i,
                forall|k: int|
                    0 <= k < i ==> entry_for(
                        #[trigger] entries@[k],
                        mv[k].0,
                        mv[k].1,
                        on_disk@[k],
                        entries@.take(k),
                    ),
        {
            let from = &moves[i].0;
            let to = &moves[i].1;
            let ghost before = entries@;
            let entry = if paths_equal(to.as_str(), from.as_str()) {
                PlanEntry::AlreadyOrganized(from.clone())
            } else if on_disk[i] || already_claimed(&entries, to) {
                PlanEntry::Conflict { file_move: FileMove { from: from.clone(), to: to.clone() } }
            } else {
                PlanEntry::Move(FileMove { from: from.clone(), to: to.clone() })
            };
            entries.push(entry);
            assert(entries@.take(i as int) =~= before);
            assert forall|k: int| 0 <= k < i + 1 implies entry_for(
                #[trigger] entries@[k],
                mv[k].0,
                mv[k].1,
                on_disk@[k],
                entries@.take(k),
            ) by {
                if k < i {
                    assert(entries@.take(k) =~= before.take(k));
                    assert(entries@[k] == before[k]);
                }
            }
        }
        proof {
            law_plan_moves_are_safe(entries@, mv, on_disk@);
        }
        OrganizationPlan { entries }
    }

    /// The destination of each `(current_path, metadata)` pair, in order:
    /// the paths whose existence on disk [`Self::build`] needs to be told.
    pub fn targets(root: &str, template: &Template, tracks: &Vec<(String, TrackMetadata)>) -> (r:
        Vec<String>)
        ensures
            r@.len() == tracks@.len(),
            forall|k: int|
                0 <= k < tracks@.len() ==> (#[trigger] r@[k])@ == target_path(
                    root@,
                    *template,
                    tracks@[k].0@,
                    tracks@[k].1,
                ),
    {
        let mut out: Vec<String> = Vec::new();
        for i in 0..tracks.len()
            invariant
                out@.len() == i,
                forall|k: int|
                    0 <= k < i ==> (#[trigger] out@[k])@ == target_path(
                        root@,
                        *template,
                        tracks@[k].0@,
                        tracks@[k].1,
                    ),
        {
            out.push(Self::target_for(root, template, tracks[i].0.as_str(), &tracks[i].1));
        }
        out
    }

    /// Build a plan for a set of `(current_path, metadata)` pairs.
    ///
    /// `root` is the destination library folder; every rendered template path
    /// is joined onto it. Nothing touches the disk here: `on_disk[i]` says
    /// whether the destination of the `i`-th track (see [`Self::targets`])
    /// already exists, so that collisions are detected up front rather than
    /// clobbering existing files.
    pub fn build(
        root: &str,
        template: &Template,
        tracks: Vec<(String, TrackMetadata)>,
        on_disk: &Vec<bool>,
    ) -> (r: Self)
        requires
            on_disk@.len() == tracks@.len(),
        ensures
            planned(r.entries@, target_moves(root@, *template, tracks@), on_disk@),
            moves_distinct(r.entries@),
            moves_avoid_disk(r.entries@, target_moves(root@, *template, tracks@), on_disk@),
    {
        let mut moves: Vec<(String, String)> = Vec::new();
        for i in 0..tracks.len()
            invariant
                moves@.len() == i,
                forall|k: int|
                    0 <= k < i ==> (#[trigger] moves@[k]).0@ == tracks@[k].0@ && moves@[k].1@
                        == target_path(root@, *template, tracks@[k].0@, tracks@[k].1),
        {
            let from = &tracks[i].0;
            let meta = &tracks[i].1;
            let to = Self::target_for(root, template, from.as_str(), meta);
            moves.push((from.clone(), to));
        }
        let ghost mv = moves@.map_values(|p: (String, String)| (p.0@, p.1@));
        let ghost want = target_moves(root@, *template, tracks@);
        assert(mv =~= want);
        let r = Self::classify(moves, on_disk);
        proof {
            law_plan_moves_are_safe(r.entries@, want, on_disk@);
        }
        r
    }

    /// The moves that would actually be performed by an [`Execution`] of
    /// this plan.
    pub fn pending_moves(&self) -> (r: Vec<FileMove>)
        ensures
            r@ == spec_pending(self.entries@),
    {
        let mut out: Vec<FileMove> = Vec::new();
        for i in 0..self.entries.len()
            invariant
                out@ == spec_pending(self.entries@.take(i as int)),
        {
            assert(self.entries@.take(i + 1).drop_last() =~= self.entries@.take(i as int));
            if let PlanEntry::Move(m) = &self.entries[i] {
                out.push(m.copy());
            }
        }
        assert(self.entries@.take(self.entries@.len() as int) =~= self.entries@);
        out
    }

    /// Number of files that will be moved.
    pub fn move_count(&self) -> (r: usize)
        ensures
            r == spec_pending(self.entries@).len(),
    {
        self.pending_moves().len()
    }

    /// Number of conflicting entries that will be skipped.
    pub fn conflict_count(&self) -> (r: usize)
        ensures
            r == spec_conflicts(self.entries@),
    {
        let mut n: usize = 0;
        for i in 0..self.entries.len()
            invariant
                n == spec_conflicts(self.entries@.take(i as int)),
                n <= i,
        {
            assert(self.entries@.take(i + 1).drop_last() =~= self.entries@.take(i as int));
            if let PlanEntry::Conflict { .. } = &self.entries[i] {
                n = n + 1;
            }
        }
        assert(self.entries@.take(self.entries@.len() as int) =~= self.entries@);
        n
    }

    /// Execute this plan: the returned [`Execution`] names each pending move
    /// in turn ([`Execution::next_move`]); the caller performs it, creating
    /// parent directories and refusing a destination that appeared meanwhile,
    /// reports it with [`Execution::record_done`], and finally takes the
    /// [`UndoLog`] of what was moved with [`Execution::into_log`].
    pub fn execute(&self) -> (r: Execution)
        ensures
            r.wf(),
            r.remaining() == spec_pending(self.entries@),
            r.log().moves@.len() == 0,
    {
        let moves = self.pending_moves();
        let r = Execution { moves, done: 0, log: UndoLog { moves: Vec::new() } };
        assert(r.log.moves@ =~= r.moves@.take(0));
        assert(r.remaining() =~= spec_pending(self.entries@));
        r
    }
}

/// A record of executed moves that can be reversed.
#[derive(Debug, Clone, PartialEq)]
pub struct UndoLog {
    pub moves: Vec<FileMove>,
}

impl Default for UndoLog {
    fn default() -> (r: Self)
        ensures
            r.moves@.len() == 0,
    {
        UndoLog { moves: Vec::new() }
    }
}

/// A move the other way round.
pub open spec fn inverse(m: FileMove) -> FileMove {
    FileMove { from: m.to, to: m.from }
}

/// The moves that undo a log: each logged move reversed, most recent first.
pub open spec fn spec_undo_steps(moves: Seq<FileMove>) -> Seq<FileMove> {
    Seq::new(moves.len(), |i: int| inverse(moves[moves.len() - 1 - i]))
}

impl UndoLog {
    /// The moves that reverse this log, in the order to perform them: each
    /// recorded move the other way round, most recent first.
    pub fn undo_steps(&self) -> (r: Vec<FileMove>)
        ensures
            r@ == spec_undo_steps(self.moves@),
    {
        let mut out: Vec<FileMove> = Vec::new();
        let n = self.moves.len();
        for k in 0..n
            invariant
                n == self.moves@.len(),
                out@ == spec_undo_steps(self.moves@).take(k as int),
        {
            let m = &self.moves[n - 1 - k];
            out.push(FileMove { from: m.to.clone(), to: m.from.clone() });
            assert(out@ =~= spec_undo_steps(self.moves@).take(k + 1));
        }
        assert(spec_undo_steps(self.moves@).take(n as int) =~= spec_undo_steps(self.moves@));
        out
    }
}

/// The progress of executing a plan: the pending moves, how many of them have
/// been performed, and the log of those performed.
#[derive(Debug)]
pub struct Execution {
    moves: Vec<FileMove>,
    done: usize,
    log: UndoLog,
}

impl Execution {
    /// The invariant of an execution: the log holds exactly the moves
    /// performed, which come first among all the moves, and the others
    /// remain.
    pub open spec fn wf(self) -> bool {
        &&& self.performed() <= self.all_moves().len()
        &&& self.log().moves@ == self.all_moves().take(self.performed() as int)
        &&& self.remaining() == self.all_moves().skip(self.performed() as int)
    }

    /// How many moves have been performed.
    pub closed spec fn performed(self) -> nat {
        self.done as nat
    }

    /// The moves not yet performed.
    pub closed spec fn remaining(self) -> Seq<FileMove> {
        self.moves@.skip(self.done as int)
    }

    /// Every move of the plan, performed or not.
    pub closed spec fn all_moves(self) -> Seq<FileMove> {
        self.moves@
    }

    /// The moves performed so far.
    pub closed spec fn log(self) -> UndoLog {
        self.log
    }

    /// The move to perform next, if any.
    pub fn next_move(&self) -> (r: Option<&FileMove>)
        requires
            self.wf(),
        ensures
            r matches Some(m) ==> self.remaining().len() > 0 && *m == self.remaining()[0],
            r is None ==> self.remaining().len() == 0,
    {
        if self.done < self.moves.len() {
            Some(&self.moves[self.done])
        } else {
            None
        }
    }

    /// Record that the move returned by [`Self::next_move`] has been
    /// performed. Does nothing when no move remains.
    pub fn record_done(&mut self)
        requires
            old(self).wf(),
        ensures
            final(self).wf(),
            old(self).remaining().len() > 0 ==> final(self).remaining() == old(
                self,
            ).remaining().drop_first() && final(self).log().moves@ == old(
                self,
            ).log().moves@.push(old(self).remaining()[0]),
            old(self).remaining().len() == 0 ==> *final(self) == *old(self),
            final(self).all_moves() == old(self).all_moves(),
            final(self).log().moves@ + final(self).remaining() == final(self).all_moves(),
    {
        if self.done < self.moves.len() {
            let m = self.moves[self.done].copy();
            self.log.moves.push(m);
            self.done = self.done + 1;
            assert(self.log.moves@ =~= self.moves@.take(self.done as int));
            assert(self.moves@.skip(self.done as int) =~= old(self).remaining().drop_first());
        }
        assert(self.log.moves@ + self.moves@.skip(self.done as int) =~= self.moves@);
    }

    /// The log of the moves performed so far.
    pub fn into_log(self) -> (r: UndoLog)
        requires
            self.wf(),
        ensures
            r == self.log(),
            r.moves@ + self.remaining() == self.all_moves(),
    {
        assert(self.log.moves@ + self.moves@.skip(self.done as int) =~= self.moves@);
        self.log
    }
}

// ---------------------------------------------------------------------------
// What undo restores
// ---------------------------------------------------------------------------

/// A file system modelled as the contents stored at each path.
pub type FileTree = Map<Seq<char>, Seq<u8>>;

/// Whether a move can be performed: its source exists and its destination,
/// a different path, does not.
pub open spec fn can_move(fs: FileTree, m: FileMove) -> bool {
    fs.contains_key(m.from@) && !fs.contains_key(m.to@) && m.from@ != m.to@
}

/// The file system after one move; a move that cannot be performed changes
/// nothing.
pub open spec fn apply_move(fs: FileTree, m: FileMove) -> FileTree {
    if can_move(fs, m) {
        fs.remove(m.from@).insert(m.to@, fs[m.from@])
    } else {
        fs
    }
}

/// The file system after a sequence of moves, in order.
pub open spec fn apply_moves(fs: FileTree, moves: Seq<FileMove>) -> FileTree
    decreases moves.len(),
{
    if moves.len() == 0 {
        fs
    } else {
        apply_move(apply_moves(fs, moves.drop_last()), moves.last())
    }
}

/// Whether each move of a sequence can be performed when its turn comes.
pub open spec fn all_can_move(fs: FileTree, moves: Seq<FileMove>) -> bool
    decreases moves.len(),
{
    if moves.len() == 0 {
        true
    } else {
        all_can_move(fs, moves.drop_last()) && can_move(
            apply_moves(fs, moves.drop_last()),
            moves.last(),
        )
    }
}

proof fn lemma_apply_first(fs: FileTree, m: FileMove, rest: Seq<FileMove>)
    ensures
        apply_moves(fs, seq![m] + rest) == apply_moves(apply_move(fs, m), rest),
    decreases rest.len(),
{
    let all = seq![m] + rest;
    if rest.len() == 0 {
        assert(all.drop_last() =~= Seq::<FileMove>::empty());
        assert(all.last() == m);
        assert(apply_moves(fs, all.drop_last()) == fs);
    } else {
        assert(all.drop_last() =~= seq![m] + rest.drop_last());
        assert(all.last() == rest.last());
        lemma_apply_first(fs, m, rest.drop_last());
    }
}

/// Undoing a log restores the file system: whenever every logged move could be
/// performed in turn, performing the undo steps afterwards gives back exactly
/// the file system from before the moves.
pub proof fn law_undo_restores(fs: FileTree, moves: Seq<FileMove>)
    requires
        all_can_move(fs, moves),
    ensures
        apply_moves(apply_moves(fs, moves), spec_undo_steps(moves)) == fs,
    decreases moves.len(),
{
    if moves.len() == 0 {
        assert(spec_undo_steps(moves) =~= Seq::<FileMove>::empty());
    } else {
        let prev = moves.drop_last();
        let m = moves.last();
        let before = apply_moves(fs, prev);
        let after = apply_moves(fs, moves);
        assert(spec_undo_steps(moves) =~= seq![inverse(m)] + spec_undo_steps(prev));
        lemma_apply_first(after, inverse(m), spec_undo_steps(prev));
        assert(apply_move(after, inverse(m)) =~= before);
        law_undo_restores(fs, prev);
    }
}

/// No path is the source or destination of two of the moves, and no source
/// is also a destination.
pub open spec fn paths_apart(moves: Seq<FileMove>) -> bool {
    forall|i: int, j: int|
        0 <= i < moves.len() && 0 <= j < moves.len() ==> (#[trigger] moves[i]).from@ != (
        #[trigger] moves[j]).to@ && (i != j ==> moves[i].from@ != moves[j].from@ && moves[i].to@
            != moves[j].to@)
}

/// Every source of the moves exists and no destination does.
pub open spec fn ready(fs: FileTree, moves: Seq<FileMove>) -> bool {
    forall|i: int|
        0 <= i < moves.len() ==> fs.contains_key((#[trigger] moves[i]).from@) && !fs.contains_key(
            moves[i].to@,
        )
}

proof fn lemma_untouched(fs: FileTree, moves: Seq<FileMove>, x: Seq<char>)
    requires
        forall|i: int| 0 <= i < moves.len() ==> (#[trigger] moves[i]).from@ != x && moves[i].to@ != x,
    ensures
        apply_moves(fs, moves).contains_key(x) == fs.contains_key(x),
        fs.contains_key(x) ==> apply_moves(fs, moves)[x] == fs[x],
    decreases moves.len(),
{
    if moves.len() > 0 {
        let prev = moves.drop_last();
        assert forall|i: int| 0 <= i < prev.len() implies (#[trigger] prev[i]).from@ != x
            && prev[i].to@ != x by {
            assert(prev[i] == moves[i]);
        }
        lemma_untouched(fs, prev, x);
        let m = moves.last();
        assert(m == moves[moves.len() - 1]);
    }
}

proof fn lemma_apart_prefix(fs: FileTree, moves: Seq<FileMove>)
    requires
        moves.len() > 0,
        paths_apart(moves),
        ready(fs, moves),
    ensures
        paths_apart(moves.drop_last()),
        ready(fs, moves.drop_last()),
{
    let prev = moves.drop_last();
    assert forall|i: int, j: int| 0 <= i < prev.len() && 0 <= j < prev.len() implies (
    #[trigger] prev[i]).from@ != (#[trigger] prev[j]).to@ && (i != j ==> prev[i].from@
        != prev[j].from@ && prev[i].to@ != prev[j].to@) by {
        assert(prev[i] == moves[i] && prev[j] == moves[j]);
    }
    assert forall|i: int| 0 <= i < prev.len() implies fs.contains_key(
        (#[trigger] prev[i]).from@,
    ) && !fs.contains_key(prev[i].to@) by {
        assert(prev[i] == moves[i]);
    }
}

proof fn lemma_all_can_move(fs: FileTree, moves: Seq<FileMove>)
    requires
        paths_apart(moves),
        ready(fs, moves),
    ensures
        all_can_move(fs, moves),
    decreases moves.len(),
{
    if moves.len() > 0 {
        let prev = moves.drop_last();
        let n = moves.len() - 1;
        let m = moves[n];
        lemma_apart_prefix(fs, moves);
        lemma_all_can_move(fs, prev);
        assert forall|i: int| 0 <= i < prev.len() implies (#[trigger] prev[i]).from@ != m.from@
            && prev[i].to@ != m.from@ by {
            assert(prev[i] == moves[i]);
            assert(moves[i].from@ != moves[n].from@);
            assert(moves[n].from@ != moves[i].to@);
        }
        lemma_untouched(fs, prev, m.from@);
        assert forall|i: int| 0 <= i < prev.len() implies (#[trigger] prev[i]).from@ != m.to@
            && prev[i].to@ != m.to@ by {
            assert(prev[i] == moves[i]);
            assert(moves[i].from@ != moves[n].to@);
            assert(moves[i].to@ != moves[n].to@);
        }
        lemma_untouched(fs, prev, m.to@);
        assert(m.from@ != m.to@);
        assert(moves.last() == m);
    }
}

/// Executing moves and then undoing them restores the files: when every
/// source exists, no destination does, and no path is used by two moves (nor
/// is both a source and a destination), each move can be performed in turn,
/// and performing the undo steps afterwards gives back exactly the file tree
/// from before, every source holding its original bytes and no destination
/// left behind. A log of an [`Execution`] holds a prefix of the plan's
/// pending moves, so this holds of a partly executed plan too.
pub proof fn law_execute_then_undo_restores(fs: FileTree, moves: Seq<FileMove>)
    requires
        paths_apart(moves),
        ready(fs, moves),
    ensures
        all_can_move(fs, moves),
        apply_moves(apply_moves(fs, moves), spec_undo_steps(moves)) == fs,
        forall|i: int|
            0 <= i < moves.len() ==> apply_moves(
                apply_moves(fs, moves),
                spec_undo_steps(moves),
            ).contains_key((#[trigger] moves[i]).from@) && apply_moves(
                apply_moves(fs, moves),
                spec_undo_steps(moves),
            )[moves[i].from@] == fs[moves[i].from@] && !apply_moves(
                apply_moves(fs, moves),
                spec_undo_steps(moves),
            ).contains_key(moves[i].to@),
{
    lemma_all_can_move(fs, moves);
    law_undo_restores(fs, moves);
}

/// A prefix of moves that are apart and ready is apart and ready.
pub proof fn law_ready_prefix(fs: FileTree, moves: Seq<FileMove>, k: int)
    requires
        0 <= k <= moves.len(),
        paths_apart(moves),
        ready(fs, moves),
    ensures
        paths_apart(moves.take(k)),
        ready(fs, moves.take(k)),
{
    let t = moves.take(k);
    assert forall|i: int, j: int| 0 <= i < t.len() && 0 <= j < t.len() implies (
    #[trigger] t[i]).from@ != (#[trigger] t[j]).to@ && (i != j ==> t[i].from@ != t[j].from@
        && t[i].to@ != t[j].to@) by {
        assert(t[i] == moves[i] && t[j] == moves[j]);
    }
    assert forall|i: int| 0 <= i < t.len() implies fs.contains_key((#[trigger] t[i]).from@)
        && !fs.contains_key(t[i].to@) by {
        assert(t[i] == moves[i]);
    }
}

} // verus!
