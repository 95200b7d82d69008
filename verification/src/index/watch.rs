//! Debounce state of the library watcher: change events collect `.nksf`
//! paths, and a batch is released once no event has arrived for the
//! debounce window.
use vstd::prelude::*;

verus! {

/// End of the last path component of `path.take(n)`: trailing separators
/// and trailing `/.` components are not part of it.
pub open spec fn name_end(path: Seq<char>, n: int) -> int
    decreases n,
{
    if n <= 0 || n > path.len() {
        0
    } else if path[n - 1] == '/' {
        name_end(path, n - 1)
    } else if n >= 2 && path[n - 1] == '.' && path[n - 2] == '/' {
        name_end(path, n - 2)
    } else {
        n
    }
}

/// Start of the component that ends at `e`: just after the last separator
/// before `e`.
pub open spec fn name_start(path: Seq<char>, e: int) -> int
    decreases e,
{
    if e <= 0 || e > path.len() {
        0
    } else if path[e - 1] == '/' {
        e
    } else {
        name_start(path, e - 1)
    }
}

/// The file name of `path`: its last component.
pub open spec fn file_name(path: Seq<char>) -> Seq<char> {
    let e = name_end(path, path.len() as int);
    path.subrange(name_start(path, e), e)
}

/// `path` names a `.nksf` file: its file name has the extension `nksf`,
/// that is, it ends in `.nksf` after a non-empty stem (`.nksf` alone is a
/// hidden file without extension).
pub open spec fn is_nksf(path: Seq<char>) -> bool {
    let f = file_name(path);
    let n = f.len() as int;
    n >= 6 && f.subrange(n - 5, n) == ".nksf"@
}

proof fn lemma_name_end(path: Seq<char>, n: int)
    requires
        0 <= n <= path.len(),
    ensures
        0 <= name_end(path, n) <= n,
    decreases n,
{
    if n > 0 {
        if path[n - 1] == '/' {
            lemma_name_end(path, n - 1);
        } else if n >= 2 && path[n - 1] == '.' && path[n - 2] == '/' {
            lemma_name_end(path, n - 2);
        }
    }
}

proof fn lemma_name_start(path: Seq<char>, e: int)
    requires
        0 <= e <= path.len(),
    ensures
        0 <= name_start(path, e) <= e,
    decreases e,
{
    if e > 0 && path[e - 1] != '/' {
        lemma_name_start(path, e - 1);
    }
}

/// Whether a path names a `.nksf` preset file.
pub fn is_interesting(path: &str) -> (r: bool)
    ensures
        r == is_nksf(path@),
{
    proof {
        reveal_strlit(".nksf");
    }
    let n = path.unicode_len();
    let mut e = n;
    proof {
        lemma_name_end(path@, n as int);
    }
    loop
        invariant
            n == path@.len(),
            e <= n,
            name_end(path@, e as int) == name_end(path@, n as int),
        ensures
            e == name_end(path@, n as int),
        decreases e,
    {
        if e > 0 && path.get_char(e - 1) == '/' {
            e = e - 1;
        } else if e >= 2 && path.get_char(e - 1) == '.' && path.get_char(e - 2) == '/' {
            e = e - 2;
        } else {
            break;
        }
    }
    let mut st = e;
    proof {
        lemma_name_start(path@, e as int);
    }
    while st > 0 && path.get_char(st - 1) != '/'
        invariant
            n == path@.len(),
            e <= n,
            st <= e,
            name_start(path@, st as int) == name_start(path@, e as int),
        decreases st,
    {
        st = st - 1;
    }
    let ghost f = path@.subrange(st as int, e as int);
    assert(f == file_name(path@));
    if e - st < 6 {
        return false;
    }
    let ok = path.get_char(e - 5) == '.' && path.get_char(e - 4) == 'n' && path.get_char(e - 3)
        == 'k' && path.get_char(e - 2) == 's' && path.get_char(e - 1) == 'f';
    proof {
        let m = f.len() as int;
        let tail = f.subrange(m - 5, m);
        if ok {
            assert(tail =~= ".nksf"@);
        } else if tail == ".nksf"@ {
            assert(tail[0] == '.' && tail[1] == 'n' && tail[2] == 'k' && tail[3] == 's' && tail[4]
                == 'f');
        }
    }
    ok
}

/// The `.nksf` paths of `paths`, in order.
pub open spec fn nksf_only(paths: Seq<Seq<char>>) -> Seq<Seq<char>>
    decreases paths.len(),
{
    if paths.len() == 0 {
        Seq::empty()
    } else {
        let rest = nksf_only(paths.drop_last());
        if is_nksf(paths.last()) {
            rest.push(paths.last())
        } else {
            rest
        }
    }
}

/// A batch is due: paths are pending and the deadline has passed.
pub open spec fn batch_due(pending: nat, deadline: Option<u64>, now: u64) -> bool {
    pending > 0 && match deadline {
        Some(d) => d <= now,
        None => false,
    }
}

/// Paths waiting to be reported and when the batch is due (milliseconds).
pub struct Debounce {
    pub pending: Vec<String>,
    pub deadline: Option<u64>,
}

/// Milliseconds to wait for the next event when no batch is pending.
pub const IDLE_WAIT_MS: u64 = 60_000;

impl Debounce {
    pub fn new() -> (d: Debounce)
        ensures
            d.pending@.len() == 0,
            d.deadline is None,
    {
        Debounce { pending: Vec::new(), deadline: None }
    }

    /// A filesystem event at `now`. Create, modify and remove events add
    /// their `.nksf` paths and push the deadline to `now + debounce`; other
    /// events are ignored.
    pub fn on_event(&mut self, is_change: bool, paths: &Vec<String>, now: u64, debounce: u64)
        requires
            now + debounce <= u64::MAX,
        ensures
            !is_change ==> final(self).pending@ == old(self).pending@ && final(self).deadline
                == old(self).deadline,
            is_change ==> final(self).pending@.map_values(|p: String| p@) == old(
                self,
            ).pending@.map_values(|p: String| p@) + nksf_only(paths@.map_values(|p: String| p@)),
            is_change ==> final(self).deadline == Some((now + debounce) as u64),
    {
        if !is_change {
            return;
        }
        let ghost pv = paths@.map_values(|p: String| p@);
        let ghost start = self.pending@.map_values(|p: String| p@);
        let mut k: usize = 0;
        while k < paths.len()
            invariant
                k <= paths@.len(),
                pv == paths@.map_values(|p: String| p@),
                self.pending@.map_values(|p: String| p@) == start + nksf_only(pv.take(k as int)),
            decreases paths@.len() - k,
        {
            let ghost before = self.pending@.map_values(|p: String| p@);
            let keep = is_interesting(paths[k].as_str());
            if keep {
                self.pending.push(paths[k].clone());
            }
            proof {
                let t = pv.take(k + 1);
                assert(t.drop_last() =~= pv.take(k as int));
                assert(t.last() == paths@[k as int]@);
                assert(nksf_only(t) == if is_nksf(t.last()) {
                    nksf_only(pv.take(k as int)).push(t.last())
                } else {
                    nksf_only(pv.take(k as int))
                });
                if keep {
                    assert(self.pending@.map_values(|p: String| p@) =~= before.push(
                        paths@[k as int]@,
                    ));
                    assert(before.push(paths@[k as int]@) =~= start + nksf_only(t));
                } else {
                    assert(self.pending@.map_values(|p: String| p@) =~= before);
                }
            }
            k = k + 1;
        }
        assert(pv.take(paths@.len() as int) =~= pv);
        self.deadline = Some(now + debounce);
    }

    /// A wait that ended without an event at `now`: when paths are pending
    /// and the deadline has passed, the batch is released and the state
    /// reset.
    pub fn on_timeout(&mut self, now: u64) -> (batch: Option<Vec<String>>)
        ensures
            batch_due(old(self).pending@.len(), old(self).deadline, now) ==> {
                &&& batch matches Some(b) && b@ == old(self).pending@
                &&& final(self).pending@.len() == 0
                &&& final(self).deadline is None
            },
            !batch_due(old(self).pending@.len(), old(self).deadline, now) ==> {
                &&& batch is None
                &&& final(self).pending@ == old(self).pending@
                &&& final(self).deadline == old(self).deadline
            },
    {
        let due = match self.deadline {
            Some(d) => d <= now,
            None => false,
        };
        if self.pending.len() > 0 && due {
            let mut batch: Vec<String> = Vec::new();
            core::mem::swap(&mut batch, &mut self.pending);
            self.deadline = None;
            Some(batch)
        } else {
            None
        }
    }

    /// How long to wait for the next event at `now`.
    pub fn wait_ms(&self, now: u64) -> (w: u64)
        ensures
            w == match self.deadline {
                Some(d) => if d >= now {
                    (d - now) as u64
                } else {
                    0
                },
                None => IDLE_WAIT_MS,
            },
    {
        match self.deadline {
            Some(d) => if d >= now {
                d - now
            } else {
                0
            },
            None => IDLE_WAIT_MS,
        }
    }
}

/// One thing the watcher's loop observes: a create, modify or remove event
/// with its paths at a time, another event, or a wait that ran out at a
/// time.
pub enum WatchStep {
    Change(Seq<Seq<char>>, u64),
    Ignored,
    Wait(u64),
}

/// Pending paths, deadline and the batches released so far after `steps`,
/// from a fresh state: what `Debounce::on_event` (changes and ignored
/// events) and `Debounce::on_timeout` (waits) make of them.
pub open spec fn watch_run(steps: Seq<WatchStep>, debounce: u64) -> (
    Seq<Seq<char>>,
    Option<u64>,
    Seq<Seq<Seq<char>>>,
)
    decreases steps.len(),
{
    if steps.len() == 0 {
        (seq![], None, seq![])
    } else {
        let (p, d, bs) = watch_run(steps.drop_last(), debounce);
        match steps.last() {
            WatchStep::Change(paths, now) => (p + nksf_only(paths), Some((now + debounce) as u64), bs),
            WatchStep::Ignored => (p, d, bs),
            WatchStep::Wait(now) => if batch_due(p.len(), d, now) {
                (seq![], None, bs.push(p))
            } else {
                (p, d, bs)
            },
        }
    }
}

/// The `.nksf` paths of every change in `steps`, in arrival order.
pub open spec fn changed_nksf(steps: Seq<WatchStep>) -> Seq<Seq<char>>
    decreases steps.len(),
{
    if steps.len() == 0 {
        seq![]
    } else {
        changed_nksf(steps.drop_last()) + match steps.last() {
            WatchStep::Change(paths, _) => nksf_only(paths),
            _ => seq![],
        }
    }
}

/// The time of the last change in `steps`, if any.
pub open spec fn last_change(steps: Seq<WatchStep>) -> Option<u64>
    decreases steps.len(),
{
    if steps.len() == 0 {
        None
    } else {
        match steps.last() {
            WatchStep::Change(_, now) => Some(now),
            _ => last_change(steps.drop_last()),
        }
    }
}

/// The batches in order, one after another.
pub open spec fn joined(bs: Seq<Seq<Seq<char>>>) -> Seq<Seq<char>>
    decreases bs.len(),
{
    if bs.len() == 0 {
        seq![]
    } else {
        joined(bs.drop_last()) + bs.last()
    }
}

/// Every change's deadline fits in `u64`, as `Debounce::on_event` requires.
pub open spec fn deadlines_fit(steps: Seq<WatchStep>, debounce: u64) -> bool {
    forall|i: int|
        0 <= i < steps.len() ==> match #[trigger] steps[i] {
            WatchStep::Change(_, now) => now + debounce <= u64::MAX,
            _ => true,
        }
}

proof fn lemma_nksf_only_nksf(paths: Seq<Seq<char>>)
    ensures
        forall|k: int| 0 <= k < nksf_only(paths).len() ==> is_nksf(#[trigger] nksf_only(paths)[k]),
    decreases paths.len(),
{
    if paths.len() > 0 {
        lemma_nksf_only_nksf(paths.drop_last());
        let rest = nksf_only(paths.drop_last());
        assert forall|k: int| 0 <= k < nksf_only(paths).len() implies is_nksf(
            #[trigger] nksf_only(paths)[k],
        ) by {
            if k < rest.len() {
                assert(nksf_only(paths)[k] == rest[k]);
            }
        }
    }
}

/// The watcher's batches: every released batch is non-empty and holds
/// only `.nksf` paths; the batches followed by what is still pending are
/// exactly the `.nksf` paths of the change events, in arrival order, none
/// lost or repeated; and a pending deadline lies `debounce` after the last
/// change, so a batch is released only once no change has arrived for the
/// debounce window.
pub proof fn watch_batches(steps: Seq<WatchStep>, debounce: u64)
    requires
        deadlines_fit(steps, debounce),
    ensures
        forall|b: int|
            0 <= b < watch_run(steps, debounce).2.len() ==> (#[trigger] watch_run(
                steps,
                debounce,
            ).2[b]).len() > 0,
        forall|b: int, k: int|
            0 <= b < watch_run(steps, debounce).2.len() && 0 <= k < watch_run(
                steps,
                debounce,
            ).2[b].len() ==> is_nksf(#[trigger] watch_run(steps, debounce).2[b][k]),
        joined(watch_run(steps, debounce).2) + watch_run(steps, debounce).0 == changed_nksf(
            steps,
        ),
        watch_run(steps, debounce).1 is Some ==> last_change(steps) is Some
            && watch_run(steps, debounce).1->0 == last_change(steps)->0 + debounce,
        steps.len() > 0 && watch_run(steps, debounce).2.len() > watch_run(
            steps.drop_last(),
            debounce,
        ).2.len() ==> (steps.last() is Wait && last_change(steps) is Some && last_change(steps)->0
            + debounce <= steps.last()->Wait_0),
    decreases steps.len(),
{
    if steps.len() > 0 {
        let front = steps.drop_last();
        assert(deadlines_fit(front, debounce)) by {
            assert forall|i: int| 0 <= i < front.len() implies match #[trigger] front[i] {
                WatchStep::Change(_, now) => now + debounce <= u64::MAX,
                _ => true,
            } by {
                assert(front[i] == steps[i]);
            }
        }
        watch_batches(front, debounce);
        let (p, d, bs) = watch_run(front, debounce);
        assert(joined(bs) + p == changed_nksf(front));
        match steps.last() {
            WatchStep::Change(paths, now) => {
                assert(steps[steps.len() - 1] == steps.last());
                lemma_nksf_only_nksf(paths);
                assert(joined(bs) + (p + nksf_only(paths)) =~= (joined(bs) + p) + nksf_only(
                    paths,
                ));
            },
            WatchStep::Ignored => {
                assert(changed_nksf(steps) =~= changed_nksf(front));
            },
            WatchStep::Wait(now) => {
                assert(changed_nksf(steps) =~= changed_nksf(front));
                if batch_due(p.len(), d, now) {
                    let bs2 = bs.push(p);
                    assert(bs2.drop_last() =~= bs);
                    assert(joined(bs2) + seq![] =~= joined(bs) + p);
                    assert forall|b: int, k: int|
                        0 <= b < bs2.len() && 0 <= k < bs2[b].len() implies is_nksf(
                        #[trigger] bs2[b][k],
                    ) by {
                        if b < bs.len() {
                            assert(bs2[b] == bs[b]);
                        } else {
                            assert(bs2[b] == p);
                            assert(p[k] == changed_nksf(front)[joined(bs).len() + k]);
                            lemma_changed_nksf(front);
                        }
                    }
                }
            },
        }
    }
}

proof fn lemma_changed_nksf(steps: Seq<WatchStep>)
    ensures
        forall|k: int| 0 <= k < changed_nksf(steps).len() ==> is_nksf(#[trigger] changed_nksf(steps)[k]),
    decreases steps.len(),
{
    if steps.len() > 0 {
        lemma_changed_nksf(steps.drop_last());
        match steps.last() {
            WatchStep::Change(paths, _) => {
                lemma_nksf_only_nksf(paths);
                let a = changed_nksf(steps.drop_last());
                assert forall|k: int| 0 <= k < changed_nksf(steps).len() implies is_nksf(
                    #[trigger] changed_nksf(steps)[k],
                ) by {
                    if k < a.len() {
                        assert(changed_nksf(steps)[k] == a[k]);
                    } else {
                        assert(changed_nksf(steps)[k] == nksf_only(paths)[k - a.len()]);
                    }
                }
            },
            _ => {
                assert(changed_nksf(steps) =~= changed_nksf(steps.drop_last()));
            },
        }
    }
}

} // verus!
