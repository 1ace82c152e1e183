use vstd::prelude::*;
use crate::text::str_equal;

verus! {

/// Two notifications for one path closer than this, in milliseconds, count as one.
pub const DEBOUNCE_MS: u64 = 2000;

/// Entries older than this, in milliseconds, are dropped.
pub const RETENTION_MS: u64 = 30000;

/// Milliseconds from `then` to `now`, zero when `then` is later.
pub open spec fn elapsed(now: u64, then: u64) -> int {
    if now >= then { now - then } else { 0 }
}

/// When a path was last let through, in milliseconds on the caller's clock.
#[derive(Clone, Debug)]
pub struct SeenPath {
    pub path: String,
    pub at_ms: u64,
}

/// Some entry of `v` records `q` at time `t`.
pub open spec fn holds(v: Seq<SeenPath>, q: Seq<char>, t: u64) -> bool {
    exists|i: int| 0 <= i < v.len() && (#[trigger] v[i]).path@ == q && v[i].at_ms == t
}

/// Some entry of `v` before index `j` records `q` at time `t`.
pub open spec fn holds_before(v: Seq<SeenPath>, j: int, q: Seq<char>, t: u64) -> bool {
    exists|i: int| 0 <= i < j && i < v.len() && (#[trigger] v[i]).path@ == q && v[i].at_ms == t
}

/// No path is recorded twice in `v`.
pub open spec fn distinct_paths(v: Seq<SeenPath>) -> bool {
    forall|i: int, j: int| 0 <= i < j < v.len() ==> (#[trigger] v[i]).path@ != (#[trigger] v[j]).path@
}

proof fn lemma_holds_push(v: Seq<SeenPath>, e: SeenPath, q: Seq<char>, t: u64)
    ensures
        holds(v.push(e), q, t) == (holds(v, q, t) || (e.path@ == q && e.at_ms == t)),
{
    let w = v.push(e);
    if holds(w, q, t) {
        let i = choose|i: int| 0 <= i < w.len() && (#[trigger] w[i]).path@ == q && w[i].at_ms == t;
        if i < v.len() {
            assert(w[i] == v[i]);
        }
    }
    if holds(v, q, t) {
        let i = choose|i: int| 0 <= i < v.len() && (#[trigger] v[i]).path@ == q && v[i].at_ms == t;
        assert(w[i] == v[i]);
    }
    if e.path@ == q && e.at_ms == t {
        assert(w[v.len() as int] == e);
    }
}

proof fn lemma_holds_before_step(v: Seq<SeenPath>, j: int, q: Seq<char>, t: u64)
    requires
        0 <= j < v.len(),
    ensures
        holds_before(v, j + 1, q, t) == (holds_before(v, j, q, t) || (v[j].path@ == q && v[j].at_ms == t)),
{
}

/// The entries of `seen` that stay on record when `path` is let through at
/// `now_ms`: those of other paths, within the retention window.
fn retained(seen: &Vec<SeenPath>, path: &str, now_ms: u64) -> (kept: Vec<SeenPath>)
    requires
        distinct_paths(seen@),
    ensures
        distinct_paths(kept@),
        forall|a: int| 0 <= a < kept@.len() ==> (#[trigger] kept@[a]).path@ != path@,
        forall|q: Seq<char>, t: u64|
            #[trigger] holds(kept@, q, t) == (q != path@ && elapsed(now_ms, t) < RETENTION_MS && holds(seen@, q, t)),
{
    let mut kept: Vec<SeenPath> = Vec::new();
    let mut j: usize = 0;
    while j < seen.len()
        invariant
            distinct_paths(seen@),
            j <= seen@.len(),
            distinct_paths(kept@),
            forall|a: int| 0 <= a < kept@.len() ==> (#[trigger] kept@[a]).path@ != path@,
            forall|q: Seq<char>, t: u64|
                #[trigger] holds(kept@, q, t) == (q != path@ && elapsed(now_ms, t) < RETENTION_MS && holds_before(seen@, j as int, q, t)),
        decreases seen@.len() - j,
    {
        let entry = &seen[j];
        let age: u64 = if now_ms >= entry.at_ms { now_ms - entry.at_ms } else { 0 };
        let ghost before = kept@;
        if age < RETENTION_MS && !str_equal(entry.path.as_str(), path) {
            let e = SeenPath { path: entry.path.clone(), at_ms: entry.at_ms };
            kept.push(e);
            proof {
                assert forall|a: int, b: int| 0 <= a < b < kept@.len() implies (#[trigger] kept@[a]).path@ != (#[trigger] kept@[b]).path@ by {
                    assert(kept@[a] == before[a]);
                    if b < before.len() {
                        assert(kept@[b] == before[b]);
                    } else {
                        assert(holds(before, before[a].path@, before[a].at_ms));
                        if before[a].path@ == seen@[j as int].path@ {
                            let i = choose|i: int| 0 <= i < j && i < seen@.len() && (#[trigger] seen@[i]).path@ == before[a].path@ && seen@[i].at_ms == before[a].at_ms;
                            assert(seen@[i].path@ != seen@[j as int].path@);
                        }
                    }
                }
                assert forall|a: int| 0 <= a < kept@.len() implies (#[trigger] kept@[a]).path@ != path@ by {
                    if a < before.len() {
                        assert(kept@[a] == before[a]);
                    }
                }
            }
        }
        proof {
            assert forall|q: Seq<char>, t: u64|
                #[trigger] holds(kept@, q, t) == (q != path@ && elapsed(now_ms, t) < RETENTION_MS && holds_before(seen@, j + 1, q, t)) by {
                lemma_holds_before_step(seen@, j as int, q, t);
                lemma_holds_push(before, seen@[j as int], q, t);
            }
        }
        j = j + 1;
    }
    proof {
        assert forall|q: Seq<char>, t: u64| holds_before(seen@, j as int, q, t) == #[trigger] holds(seen@, q, t) by {}
    }
    kept
}

/// Remembers which paths were recently let through, to drop duplicate
/// notifications for the same path.
pub struct RecentTracker {
    seen: Vec<SeenPath>,
}

impl RecentTracker {
    /// No path is on record twice.
    pub closed spec fn wf(&self) -> bool {
        distinct_paths(self.seen@)
    }

    /// `p` is on record as let through at time `t`.
    pub closed spec fn seen_at(&self, p: Seq<char>, t: u64) -> bool {
        holds(self.seen@, p, t)
    }

    /// `p` was let through less than the debounce window before `now`.
    pub open spec fn is_recent(&self, p: Seq<char>, now: u64) -> bool {
        exists|t: u64| #[trigger] self.seen_at(p, t) && elapsed(now, t) < DEBOUNCE_MS
    }

    /// `next` is `self` after letting `p` through at `now`: `p` is on record at
    /// `now`, and every other path stays on record, at its old time, exactly
    /// while that time lies within the retention window.
    pub open spec fn records(&self, next: &Self, p: Seq<char>, now: u64) -> bool {
        forall|q: Seq<char>, t: u64|
            #[trigger] next.seen_at(q, t) == ((q == p && t == now) || (q != p && self.seen_at(q, t)
                && elapsed(now, t) < RETENTION_MS))
    }

    /// An empty tracker.
    pub fn new() -> (r: Self)
        ensures
            r.wf(),
            forall|p: Seq<char>, t: u64| !r.seen_at(p, t),
    {
        RecentTracker { seen: Vec::new() }
    }

    /// Whether a notification for `path` at time `now_ms` should be processed:
    /// not when the path was let through within the debounce window; otherwise
    /// the path is put on record at `now_ms`, entries past the retention
    /// window are dropped, and the answer is yes.
    pub fn should_process(&mut self, path: &str, now_ms: u64) -> (r: bool)
        requires
            old(self).wf(),
        ensures
            final(self).wf(),
            r == !old(self).is_recent(path@, now_ms),
            !r ==> *final(self) == *old(self),
            r ==> old(self).records(final(self), path@, now_ms),
    {
        let n = self.seen.len();
        let mut i: usize = 0;
        while i < n
            invariant
                n == self.seen@.len(),
                self.wf(),
                *self == *old(self),
                i <= n,
                forall|k: int| 0 <= k < i ==> !((#[trigger] self.seen@[k]).path@ == path@ && elapsed(now_ms, self.seen@[k].at_ms) < DEBOUNCE_MS),
            decreases n - i,
        {
            let entry = &self.seen[i];
            let age: u64 = if now_ms >= entry.at_ms { now_ms - entry.at_ms } else { 0 };
            if age < DEBOUNCE_MS && str_equal(entry.path.as_str(), path) {
                assert(self.seen_at(path@, entry.at_ms));
                return false;
            }
            i = i + 1;
        }
        assert(!self.is_recent(path@, now_ms)) by {
            if self.is_recent(path@, now_ms) {
                let t = choose|t: u64| #[trigger] self.seen_at(path@, t) && elapsed(now_ms, t) < DEBOUNCE_MS;
                let k = choose|k: int| 0 <= k < self.seen@.len() && (#[trigger] self.seen@[k]).path@ == path@ && self.seen@[k].at_ms == t;
            }
        }
        let ghost old_self = *self;
        let mut kept = retained(&self.seen, path, now_ms);
        let ghost before = kept@;
        kept.push(SeenPath { path: path.to_owned(), at_ms: now_ms });
        self.seen = kept;
        proof {
            assert forall|q: Seq<char>, t: u64|
                #[trigger] self.seen_at(q, t) == ((q == path@ && t == now_ms) || (q != path@ && old_self.seen_at(q, t)
                    && elapsed(now_ms, t) < RETENTION_MS)) by {
                lemma_holds_push(before, self.seen@[before.len() as int], q, t);
                assert(before.push(self.seen@[before.len() as int]) =~= self.seen@);
            }
            assert forall|a: int, b: int| 0 <= a < b < self.seen@.len() implies (#[trigger] self.seen@[a]).path@ != (#[trigger] self.seen@[b]).path@ by {
                assert(self.seen@[a] == before[a]);
                if b < before.len() {
                    assert(self.seen@[b] == before[b]);
                }
            }
        }
        true
    }
}

/// Once a path has been let through at `now`, a later notification for it at
/// `later` is held back exactly while less than the debounce window has
/// passed, and let through from then on.
pub proof fn lemma_debounce_window(a: RecentTracker, b: RecentTracker, p: Seq<char>, now: u64, later: u64)
    requires
        a.records(&b, p, now),
        now <= later,
    ensures
        b.is_recent(p, later) == (later - now < DEBOUNCE_MS),
{
    assert(b.seen_at(p, now));
    if b.is_recent(p, later) {
        let t = choose|t: u64| #[trigger] b.seen_at(p, t) && elapsed(later, t) < DEBOUNCE_MS;
        assert(t == now);
    }
}

/// A fresh tracker lets any path through.
pub proof fn lemma_fresh_lets_through(r: RecentTracker, p: Seq<char>, now: u64)
    requires
        forall|q: Seq<char>, t: u64| !r.seen_at(q, t),
    ensures
        !r.is_recent(p, now),
{
}

} // verus!
