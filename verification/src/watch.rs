//! File-system change handling: which raw notifications matter, and the
//! debounce that turns bursts of them into one rescan or removal per path.
//!
//! The watcher itself (its background thread and its channel) stays outside
//! this crate; it hands each notification in as a [`ChangeKind`] and the
//! paths it names, and asks [`PendingChanges`] which paths are due.

use vstd::prelude::*;

verus! {

/// A meaningful change to a watched music folder.
#[derive(Debug, Clone, PartialEq, Eq)]
pub enum WatchEvent {
    /// A file was created or modified and should be (re)scanned.
    Upserted(String),
    /// A path was removed and any matching tracks should be pruned.
    Removed(String),
}

/// The kind of a raw file-system notification.
#[derive(Debug, Clone, Copy, PartialEq, Eq, Structural)]
pub enum ChangeKind {
    Create,
    Modify,
    Remove,
    /// Access, metadata-only and other notifications.
    Other,
}

/// The events a raw notification of `kind` about `paths` stands for.
pub open spec fn translated(kind: ChangeKind, paths: Seq<String>) -> Seq<WatchEvent> {
    match kind {
        ChangeKind::Create | ChangeKind::Modify => Seq::new(
            paths.len(),
            |i: int| WatchEvent::Upserted(paths[i]),
        ),
        ChangeKind::Remove => Seq::new(paths.len(), |i: int| WatchEvent::Removed(paths[i])),
        ChangeKind::Other => Seq::empty(),
    }
}

/// Convert a raw notification into zero or more [`WatchEvent`]s: one
/// upsert per path for a creation or modification, one removal per path for
/// a removal, nothing otherwise.
pub fn translate(kind: ChangeKind, paths: Vec<String>) -> (r: Vec<WatchEvent>)
    ensures
        r@ == translated(kind, paths@),
{
    let mut out: Vec<WatchEvent> = Vec::new();
    match kind {
        ChangeKind::Other => {
            return out;
        },
        _ => {},
    }
    for i in 0..paths.len()
        invariant
            kind != ChangeKind::Other,
            out@ == translated(kind, paths@).take(i as int),
    {
        let p = paths[i].clone();
        match kind {
            ChangeKind::Remove => out.push(WatchEvent::Removed(p)),
            _ => out.push(WatchEvent::Upserted(p)),
        }
        assert(out@ =~= translated(kind, paths@).take(i + 1));
    }
    assert(translated(kind, paths@).take(paths@.len() as int) =~= translated(kind, paths@));
    out
}

// ---------------------------------------------------------------------------
// Debounce
// ---------------------------------------------------------------------------

/// How long a path must stay quiet before it is acted on, in milliseconds.
pub const DEBOUNCE_MS: u64 = 500;

/// Whether a change noted at `at` is due at `now`: at least `debounce` has
/// passed since (a clock that went backwards counts as no time passed).
pub open spec fn is_due(at: u64, now: u64, debounce: u64) -> bool {
    now >= at && now - at >= debounce
}

/// The map from path to time noted that a list of distinct entries stands for.
pub open spec fn entries_map(s: Seq<(String, u64)>) -> Map<Seq<char>, u64>
    decreases s.len(),
{
    if s.len() == 0 {
        Map::empty()
    } else {
        entries_map(s.drop_last()).insert(s.last().0@, s.last().1)
    }
}

/// No path occurs twice.
pub open spec fn distinct_paths(s: Seq<(String, u64)>) -> bool {
    forall|i: int, j: int|
        0 <= i < s.len() && 0 <= j < s.len() && i != j ==> #[trigger] s[i].0@ != #[trigger] s[j].0@
}

/// The entries that are (or are not) due.
pub open spec fn entries_where(s: Seq<(String, u64)>, now: u64, debounce: u64, due: bool) -> Seq<
    (String, u64),
>
    decreases s.len(),
{
    if s.len() == 0 {
        s
    } else if is_due(s.last().1, now, debounce) == due {
        entries_where(s.drop_last(), now, debounce, due).push(s.last())
    } else {
        entries_where(s.drop_last(), now, debounce, due)
    }
}

proof fn lemma_map_domain(s: Seq<(String, u64)>, k: Seq<char>)
    ensures
        entries_map(s).contains_key(k) <==> exists|j: int| 0 <= j < s.len() && #[trigger] s[j].0@ == k,
    decreases s.len(),
{
    if s.len() > 0 {
        lemma_map_domain(s.drop_last(), k);
        if entries_map(s.drop_last()).contains_key(k) {
            let j = choose|j: int| 0 <= j < s.drop_last().len() && #[trigger] s.drop_last()[j].0@ == k;
            assert(s[j].0@ == k);
        }
        if exists|j: int| 0 <= j < s.len() && #[trigger] s[j].0@ == k {
            let j = choose|j: int| 0 <= j < s.len() && #[trigger] s[j].0@ == k;
            if j < s.len() - 1 {
                assert(s.drop_last()[j].0@ == k);
            }
        }
    }
}

proof fn lemma_map_value(s: Seq<(String, u64)>, j: int)
    requires
        distinct_paths(s),
        0 <= j < s.len(),
    ensures
        entries_map(s).contains_key(s[j].0@),
        entries_map(s)[s[j].0@] == s[j].1,
    decreases s.len(),
{
    if j < s.len() - 1 {
        let t = s.drop_last();
        assert(t[j] == s[j]);
        assert forall|a: int, b: int|
            0 <= a < t.len() && 0 <= b < t.len() && a != b implies #[trigger] t[a].0@
            != #[trigger] t[b].0@ by {
            assert(t[a] == s[a] && t[b] == s[b]);
        }
        lemma_map_value(t, j);
        assert(s[j].0@ != s.last().0@);
    }
}

proof fn lemma_distinct_prefix(s: Seq<(String, u64)>)
    requires
        distinct_paths(s),
        s.len() > 0,
    ensures
        distinct_paths(s.drop_last()),
        !entries_map(s.drop_last()).contains_key(s.last().0@),
{
    let t = s.drop_last();
    assert forall|a: int, b: int|
        0 <= a < t.len() && 0 <= b < t.len() && a != b implies #[trigger] t[a].0@
        != #[trigger] t[b].0@ by {
        assert(t[a] == s[a] && t[b] == s[b]);
    }
    lemma_map_domain(t, s.last().0@);
    if exists|j: int| 0 <= j < t.len() && #[trigger] t[j].0@ == s.last().0@ {
        let j = choose|j: int| 0 <= j < t.len() && #[trigger] t[j].0@ == s.last().0@;
        assert(s[j].0@ == s[s.len() - 1].0@);
    }
}

/// The entries of a distinct list kept by a filter stand for the whole
/// map restricted to the paths whose entry passes.
proof fn lemma_filtered_map(s: Seq<(String, u64)>, now: u64, debounce: u64, due: bool)
    requires
        distinct_paths(s),
    ensures
        distinct_paths(entries_where(s, now, debounce, due)),
        entries_map(entries_where(s, now, debounce, due)) == entries_map(s).restrict(
            Set::new(
                |k: Seq<char>|
                    entries_map(s).contains_key(k) && is_due(entries_map(s)[k], now, debounce)
                        == due,
            ),
        ),
        forall|k: Seq<char>|
            entries_map(entries_where(s, now, debounce, due)).contains_key(k) <==> exists|j: int|
                0 <= j < entries_where(s, now, debounce, due).len() && #[trigger] entries_where(
                    s,
                    now,
                    debounce,
                    due,
                )[j].0@ == k,
    decreases s.len(),
{
    let f = entries_where(s, now, debounce, due);
    if s.len() == 0 {
        assert(entries_map(f) =~= entries_map(s).restrict(
            Set::new(
                |k: Seq<char>|
                    entries_map(s).contains_key(k) && is_due(entries_map(s)[k], now, debounce)
                        == due,
            ),
        ));
    } else {
        let t = s.drop_last();
        let e = s.last();
        lemma_distinct_prefix(s);
        lemma_filtered_map(t, now, debounce, due);
        let ft = entries_where(t, now, debounce, due);
        let mt = entries_map(t);
        lemma_map_domain(ft, e.0@);
        if exists|j: int| 0 <= j < ft.len() && #[trigger] ft[j].0@ == e.0@ {
            let j = choose|j: int| 0 <= j < ft.len() && #[trigger] ft[j].0@ == e.0@;
            assert(entries_map(ft).contains_key(e.0@));
            assert(false);
        }
        let ss = Set::new(
            |k: Seq<char>|
                entries_map(s).contains_key(k) && is_due(entries_map(s)[k], now, debounce) == due,
        );
        let st = Set::new(
            |k: Seq<char>| mt.contains_key(k) && is_due(mt[k], now, debounce) == due,
        );
        assert(entries_map(s) == mt.insert(e.0@, e.1));
        assert(entries_map(ft) == mt.restrict(st));
        if is_due(e.1, now, debounce) == due {
            assert(f == ft.push(e));
            assert(f.drop_last() =~= ft);
            assert(f.last() == e);
            assert(entries_map(f) == entries_map(ft).insert(e.0@, e.1));
            assert forall|k: Seq<char>| #[trigger] ss.contains(k) <==> (st.contains(k) || k == e.0@) by {
                if k != e.0@ {
                    assert(entries_map(s).contains_key(k) == mt.contains_key(k));
                }
            }
            assert forall|a: int, b: int|
                0 <= a < f.len() && 0 <= b < f.len() && a != b implies #[trigger] f[a].0@
                != #[trigger] f[b].0@ by {
                if a < ft.len() && b < ft.len() {
                    assert(f[a] == ft[a] && f[b] == ft[b]);
                } else if a < ft.len() {
                    assert(f[a] == ft[a]);
                    assert(f[b] == e);
                } else {
                    assert(f[b] == ft[b]);
                    assert(f[a] == e);
                }
            }
        } else {
            assert(f == ft);
            assert forall|k: Seq<char>| #[trigger] ss.contains(k) <==> st.contains(k) by {
                if k != e.0@ {
                    assert(entries_map(s).contains_key(k) == mt.contains_key(k));
                }
            }
        }
        assert(entries_map(f) =~= entries_map(s).restrict(
            Set::new(
                |k: Seq<char>|
                    entries_map(s).contains_key(k) && is_due(entries_map(s)[k], now, debounce)
                        == due,
            ),
        ));
        assert forall|k: Seq<char>|
            entries_map(f).contains_key(k) <==> exists|j: int|
                0 <= j < f.len() && #[trigger] f[j].0@ == k by {
            lemma_map_domain(f, k);
        }
    }
}

/// Whether `k` is one of the paths listed.
pub open spec fn lists_path(r: Seq<String>, k: Seq<char>) -> bool {
    exists|i: int| 0 <= i < r.len() && #[trigger] r[i]@ == k
}

/// Paths whose changes are waiting for the debounce to pass, each with the
/// time of its latest change.
#[derive(Debug)]
pub struct PendingChanges {
    entries: Vec<(String, u64)>,
}

impl PendingChanges {
    /// Each pending path with the time of its latest change.
    pub closed spec fn pending(self) -> Map<Seq<char>, u64> {
        entries_map(self.entries@)
    }

    /// The invariant: no path is listed twice.
    pub closed spec fn wf(self) -> bool {
        distinct_paths(self.entries@)
    }

    /// No pending change.
    pub fn new() -> (r: Self)
        ensures
            r.wf(),
            r.pending() == Map::<Seq<char>, u64>::empty(),
    {
        PendingChanges { entries: Vec::new() }
    }

    /// Whether nothing is pending.
    pub fn is_empty(&self) -> (r: bool)
        requires
            self.wf(),
        ensures
            r == (self.pending().dom() =~= Set::<Seq<char>>::empty()),
    {
        proof {
            if self.entries@.len() > 0 {
                lemma_map_domain(self.entries@, self.entries@[0].0@);
                assert(self.pending().contains_key(self.entries@[0].0@));
            } else {
                assert(self.pending() =~= Map::<Seq<char>, u64>::empty());
            }
        }
        self.entries.len() == 0
    }

    /// Note a change to `path` at time `at`; a later change to a pending
    /// path restarts its wait.
    pub fn note(&mut self, path: String, at: u64)
        requires
            old(self).wf(),
        ensures
            final(self).wf(),
            final(self).pending() == old(self).pending().insert(path@, at),
    {
        let n = self.entries.len();
        let mut i: usize = 0;
        while i < n
            invariant
                n == self.entries@.len(),
                self.entries@ == old(self).entries@,
                distinct_paths(self.entries@),
                i <= n,
                forall|j: int| 0 <= j < i ==> #[trigger] self.entries@[j].0@ != path@,
            decreases n - i,
        {
            if self.entries[i].0 == path {
                let ghost s = self.entries@;
                let k = self.entries[i].0.clone();
                self.entries.set(i, (k, at));
                proof {
                    let s2 = self.entries@;
                    assert forall|a: int, b: int|
                        0 <= a < s2.len() && 0 <= b < s2.len() && a != b implies #[trigger] s2[a].0@
                        != #[trigger] s2[b].0@ by {
                        assert(s2[a].0@ == s[a].0@ && s2[b].0@ == s[b].0@);
                    }
                    assert forall|k2: Seq<char>| #[trigger]
                        entries_map(s2).contains_key(k2) == old(self).pending().insert(
                            path@,
                            at,
                        ).contains_key(k2) by {
                        lemma_map_domain(s2, k2);
                        lemma_map_domain(s, k2);
                        if exists|j: int| 0 <= j < s.len() && #[trigger] s[j].0@ == k2 {
                            let j = choose|j: int| 0 <= j < s.len() && #[trigger] s[j].0@ == k2;
                            assert(s2[j].0@ == k2);
                        }
                        if exists|j: int| 0 <= j < s2.len() && #[trigger] s2[j].0@ == k2 {
                            let j = choose|j: int| 0 <= j < s2.len() && #[trigger] s2[j].0@ == k2;
                            assert(s[j].0@ == k2);
                        }
                    }
                    assert forall|k2: Seq<char>| #[trigger]
                        entries_map(s2).contains_key(k2) implies entries_map(s2)[k2]
                        == old(self).pending().insert(path@, at)[k2] by {
                        lemma_map_domain(s2, k2);
                        let j = choose|j: int| 0 <= j < s2.len() && #[trigger] s2[j].0@ == k2;
                        lemma_map_value(s2, j);
                        if j != i {
                            assert(s2[j] == s[j]);
                            lemma_map_value(s, j);
                        }
                    }
                    assert(entries_map(s2) =~= old(self).pending().insert(path@, at));
                }
                return;
            }
            i = i + 1;
        }
        let ghost s = self.entries@;
        self.entries.push((path, at));
        proof {
            let s2 = self.entries@;
            assert(s2.drop_last() =~= s);
            assert forall|a: int, b: int|
                0 <= a < s2.len() && 0 <= b < s2.len() && a != b implies #[trigger] s2[a].0@
                != #[trigger] s2[b].0@ by {
                if a < s.len() && b < s.len() {
                    assert(s2[a] == s[a] && s2[b] == s[b]);
                } else if a < s.len() {
                    assert(s2[a] == s[a]);
                } else {
                    assert(s2[b] == s[b]);
                }
            }
        }
    }

    /// Remove and return every pending path whose latest change is due at
    /// `now`; the others stay pending.
    pub fn take_due(&mut self, now: u64, debounce: u64) -> (r: Vec<String>)
        requires
            old(self).wf(),
        ensures
            final(self).wf(),
            final(self).pending() == old(self).pending().restrict(
                Set::new(
                    |k: Seq<char>|
                        old(self).pending().contains_key(k) && !is_due(
                            old(self).pending()[k],
                            now,
                            debounce,
                        ),
                ),
            ),
            forall|i: int, j: int|
                0 <= i < r@.len() && 0 <= j < r@.len() && i != j ==> #[trigger] r@[i]@
                    != #[trigger] r@[j]@,
            forall|k: Seq<char>|
                #[trigger] lists_path(r@, k) <==> (old(self).pending().contains_key(k) && is_due(
                    old(self).pending()[k],
                    now,
                    debounce,
                )),
    {
        let ghost s = self.entries@;
        let mut kept: Vec<(String, u64)> = Vec::new();
        let mut due: Vec<(String, u64)> = Vec::new();
        for i in 0..self.entries.len()
            invariant
                self.entries@ == s,
                kept@ == entries_where(s.take(i as int), now, debounce, false),
                due@ == entries_where(s.take(i as int), now, debounce, true),
        {
            assert(s.take(i + 1).drop_last() =~= s.take(i as int));
            let (p, at) = &self.entries[i];
            if now >= *at && now - *at >= debounce {
                due.push((p.clone(), *at));
            } else {
                kept.push((p.clone(), *at));
            }
            assert(s.take(i + 1).last() == s[i as int]);
        }
        assert(s.take(s.len() as int) =~= s);
        proof {
            lemma_filtered_map(s, now, debounce, false);
            lemma_filtered_map(s, now, debounce, true);
        }
        let ghost d = due@;
        let mut out: Vec<String> = Vec::new();
        for i in 0..due.len()
            invariant
                due@ == d,
                out@.len() == i,
                forall|j: int| 0 <= j < i ==> #[trigger] out@[j]@ == d[j].0@,
        {
            out.push(due[i].0.clone());
        }
        self.entries = kept;
        proof {
            let m = entries_map(s);
            assert(old(self).pending() == m);
            assert(Set::new(
                |k: Seq<char>| m.contains_key(k) && is_due(m[k], now, debounce) == false,
            ) =~= Set::new(|k: Seq<char>| m.contains_key(k) && !is_due(m[k], now, debounce)));
            assert forall|k: Seq<char>|
                #[trigger] lists_path(out@, k) <==> (m.contains_key(k) && is_due(
                    m[k],
                    now,
                    debounce,
                )) by {
                let md = entries_map(d);
                assert(md.contains_key(k) <==> exists|j: int|
                    0 <= j < d.len() && #[trigger] d[j].0@ == k);
                if exists|i: int| 0 <= i < out@.len() && #[trigger] out@[i]@ == k {
                    let i = choose|i: int| 0 <= i < out@.len() && #[trigger] out@[i]@ == k;
                    assert(d[i].0@ == k);
                    assert(md.contains_key(k));
                }
                if m.contains_key(k) && is_due(m[k], now, debounce) {
                    assert(md.contains_key(k));
                    let j = choose|j: int| 0 <= j < d.len() && #[trigger] d[j].0@ == k;
                    assert(out@[j]@ == k);
                }
            }
            assert forall|i: int, j: int|
                0 <= i < out@.len() && 0 <= j < out@.len() && i != j implies #[trigger] out@[i]@
                != #[trigger] out@[j]@ by {
                assert(d[i].0@ != d[j].0@);
            }
        }
        out
    }
}

} // verus!
