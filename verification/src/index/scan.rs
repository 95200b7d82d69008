//! What the library scanner computes for each preset file: whether it must
//! be re-parsed, the plugin reference and bank chain stored with it, and the
//! per-root statistics.
use vstd::prelude::*;
use crate::index::query::join;
use crate::nks::plid::NksPluginId;
use crate::nks::riff::NksSummary;
use crate::registry::resolve::{plid_key, PluginKey};

verus! {

/// Counts of one scan over a library root.
#[derive(Debug, Default, Clone, Copy, PartialEq, Eq, Structural)]
pub struct ScanStats {
    pub seen: usize,
    pub added: usize,
    pub updated: usize,
    pub skipped: usize,
    pub failed: usize,
}

/// What happened to one `.nksf` file.
#[derive(Debug, Clone, Copy, PartialEq, Eq, Structural)]
pub enum ScanOutcome {
    /// Parsed and written to the index.
    Indexed,
    /// Unchanged since the last scan (same mtime and size).
    Unchanged,
    /// Could not be read or parsed.
    Failed,
}

impl ScanStats {
    /// Counts one file and its outcome.
    pub fn record(&mut self, outcome: ScanOutcome)
        requires
            old(self).seen < usize::MAX,
            old(self).added < usize::MAX,
            old(self).updated < usize::MAX,
            old(self).failed < usize::MAX,
        ensures
            final(self).seen == old(self).seen + 1,
            final(self).skipped == old(self).skipped,
            final(self).added == old(self).added + if outcome == ScanOutcome::Indexed {
                1int
            } else {
                0
            },
            final(self).updated == old(self).updated + if outcome == ScanOutcome::Unchanged {
                1int
            } else {
                0
            },
            final(self).failed == old(self).failed + if outcome == ScanOutcome::Failed {
                1int
            } else {
                0
            },
    {
        self.seen = self.seen + 1;
        match outcome {
            ScanOutcome::Indexed => self.added = self.added + 1,
            ScanOutcome::Unchanged => self.updated = self.updated + 1,
            ScanOutcome::Failed => self.failed = self.failed + 1,
        }
    }

    /// `total` plus the presets this scan changed (added or updated), or
    /// `None` when the sum does not fit in `usize`.
    pub fn add_changed(&self, total: usize) -> (t: Option<usize>)
        ensures
            t == if total + self.added + self.updated <= usize::MAX {
                Some((total + self.added + self.updated) as usize)
            } else {
                None::<usize>
            },
    {
        match total.checked_add(self.added) {
            Some(a) => a.checked_add(self.updated),
            None => None,
        }
    }
}

/// Whether a file with modification time `mtime_ns` and size `size` must
/// be parsed again, the index holding `existing` for it: unless the index
/// holds it with the same modification time and size.
pub open spec fn reindex_needed(existing: Option<(i64, i64)>, mtime_ns: i64, size: i64) -> bool {
    match existing {
        Some((m, s)) => !(m == mtime_ns && s == size),
        None => true,
    }
}

/// Indexing a file again is a no-op until it changes: once the index holds
/// the modification time and size an indexing stored for the file, the
/// file needs no re-parse while both stay the same, and needs one as soon
/// as either differs; a file the index does not hold always needs one.
pub proof fn reindex_only_on_change(m: i64, s: i64, m2: i64, s2: i64)
    ensures
        !reindex_needed(Some((m, s)), m, s),
        reindex_needed(Some((m, s)), m2, s2) <==> (m2 != m || s2 != s),
        reindex_needed(None, m2, s2),
{
}

/// A file must be parsed again unless the index holds it with the same
/// modification time and size.
pub fn needs_reindex(existing: Option<(i64, i64)>, mtime_ns: i64, size: i64) -> (r: bool)
    ensures
        r == reindex_needed(existing, mtime_ns, size),
{
    match existing {
        Some((prev_mtime, prev_size)) => !(prev_mtime == mtime_ns && prev_size == size),
        None => true,
    }
}

/// The plugin reference stored with a preset: the registry key of its
/// `PLID`, or `unknown`.
pub fn plugin_ref(plid: &NksPluginId) -> (s: String)
    ensures
        s@ == match plid_key(*plid) {
            Some(k) => k,
            None => "unknown"@,
        },
{
    match PluginKey::from_plid(plid) {
        Some(k) => k.0,
        None => {
            proof {
                reveal_strlit("unknown");
            }
            String::from_str("unknown")
        },
    }
}

/// The bank chain joined with ` / ` (empty when absent).
pub fn bank_chain(chain: &Option<Vec<String>>) -> (s: String)
    ensures
        s@ == match chain {
            Some(v) => join(v@.map_values(|x: String| x@), " / "@),
            None => seq![],
        },
{
    proof {
        reveal_strlit(" / ");
    }
    let mut out = String::new();
    match chain {
        Some(v) => {
            let ghost parts = v@.map_values(|x: String| x@);
            let mut k: usize = 0;
            while k < v.len()
                invariant
                    k <= v@.len(),
                    parts == v@.map_values(|x: String| x@),
                    out@ == join(parts.take(k as int), " / "@),
                decreases v@.len() - k,
            {
                if k > 0 {
                    out.append(" / ");
                }
                out.append(v[k].as_str());
                proof {
                    assert(parts.take(k + 1).drop_last() =~= parts.take(k as int));
                    if k == 0 {
                        assert(out@ =~= join(parts.take(1), " / "@));
                    }
                }
                k = k + 1;
            }
            assert(parts.take(v@.len() as int) =~= parts);
        },
        None => {},
    }
    out
}

/// Type and subtype of one `[type, subtype]` pair of the summary, each
/// empty when absent.
pub fn type_pair(pair: &Vec<String>) -> (r: (String, String))
    ensures
        r.0@ == if pair@.len() > 0 {
            pair@[0]@
        } else {
            seq![]
        },
        r.1@ == if pair@.len() > 1 {
            pair@[1]@
        } else {
            seq![]
        },
{
    let ty = if pair.len() > 0 {
        pair[0].clone()
    } else {
        String::new()
    };
    let sub = if pair.len() > 1 {
        pair[1].clone()
    } else {
        String::new()
    };
    (ty, sub)
}

/// A text field of the summary, empty when absent.
pub open spec fn or_empty(f: Option<String>) -> Seq<char> {
    match f {
        Some(v) => v@,
        None => seq![],
    }
}

/// What the index stores for one preset besides its path, size and
/// modification time.
#[derive(Debug, Clone)]
pub struct PresetRecord {
    pub name: String,
    pub vendor: String,
    pub author: String,
    pub comment: String,
    pub plugin_ref: String,
    pub bank_chain: String,
    /// `(type, subtype)` pairs, in order.
    pub types: Vec<(String, String)>,
    pub modes: Vec<String>,
}

fn text_or_empty(f: &Option<String>) -> (s: String)
    ensures
        s@ == or_empty(*f),
{
    match f {
        Some(v) => v.clone(),
        None => String::new(),
    }
}

/// The index record of a preset with summary `summary` and plugin
/// `plugin`: absent texts are stored empty, the plugin as its registry key
/// (or `unknown`), the bank chain joined with ` / `, each type pair as
/// `(type, subtype)` and each mode as is.
pub fn preset_record(summary: &NksSummary, plugin: &NksPluginId) -> (r: PresetRecord)
    ensures
        r.name@ == or_empty(summary.name),
        r.vendor@ == or_empty(summary.vendor),
        r.author@ == or_empty(summary.author),
        r.comment@ == or_empty(summary.comment),
        r.plugin_ref@ == match plid_key(*plugin) {
            Some(k) => k,
            None => "unknown"@,
        },
        r.bank_chain@ == match summary.bankchain {
            Some(v) => join(v@.map_values(|x: String| x@), " / "@),
            None => seq![],
        },
        r.types@.len() == match summary.types {
            Some(t) => t@.len(),
            None => 0,
        },
        forall|i: int|
            0 <= i < r.types@.len() ==> {
                let pair = summary.types->0@[i]@;
                &&& (#[trigger] r.types@[i]).0@ == if pair.len() > 0 {
                    pair[0]@
                } else {
                    seq![]
                }
                &&& r.types@[i].1@ == if pair.len() > 1 {
                    pair[1]@
                } else {
                    seq![]
                }
            },
        r.modes@.map_values(|m: String| m@) == match summary.modes {
            Some(m) => m@.map_values(|x: String| x@),
            None => seq![],
        },
{
    let mut types: Vec<(String, String)> = Vec::new();
    match &summary.types {
        Some(t) => {
            let mut i: usize = 0;
            while i < t.len()
                invariant
                    i <= t@.len(),
                    summary.types == Some(*t),
                    types@.len() == i,
                    forall|j: int|
                        0 <= j < i ==> {
                            let pair = t@[j]@;
                            &&& (#[trigger] types@[j]).0@ == if pair.len() > 0 {
                                pair[0]@
                            } else {
                                seq![]
                            }
                            &&& types@[j].1@ == if pair.len() > 1 {
                                pair[1]@
                            } else {
                                seq![]
                            }
                        },
                decreases t@.len() - i,
            {
                types.push(type_pair(&t[i]));
                i = i + 1;
            }
        },
        None => {},
    }
    let mut modes: Vec<String> = Vec::new();
    match &summary.modes {
        Some(m) => {
            let mut i: usize = 0;
            while i < m.len()
                invariant
                    i <= m@.len(),
                    modes@.map_values(|x: String| x@) == m@.take(i as int).map_values(
                        |x: String| x@,
                    ),
                decreases m@.len() - i,
            {
                let ghost before = modes@;
                let c = m[i].clone();
                modes.push(c);
                assert(modes@ == before.push(c));
                assert(c@ == m@[i as int]@);
                assert(modes@.map_values(|x: String| x@) =~= before.map_values(|x: String| x@).push(c@));
                assert(m@.take(i + 1).map_values(|x: String| x@) =~= m@.take(i as int).map_values(
                    |x: String| x@,
                ).push(m@[i as int]@));
                assert(modes@.map_values(|x: String| x@) =~= m@.take(i + 1).map_values(
                    |x: String| x@,
                ));
                i = i + 1;
            }
            assert(m@.take(m@.len() as int) =~= m@);
        },
        None => {
            assert(modes@.map_values(|x: String| x@) =~= seq![]);
        },
    }
    PresetRecord {
        name: text_or_empty(&summary.name),
        vendor: text_or_empty(&summary.vendor),
        author: text_or_empty(&summary.author),
        comment: text_or_empty(&summary.comment),
        plugin_ref: plugin_ref(plugin),
        bank_chain: bank_chain(&summary.bankchain),
        types,
        modes,
    }
}

} // verus!
