//! Registry keyed by a stable string per plugin and the resolution of an
//! NKS `PLID` against it.
use vstd::prelude::*;
use crate::nks::plid::NksPluginId;
use crate::text::{hex8, hex8_injective, lemma_hex_n_len, push_char, push_hex};

verus! {

/// A VST3 plugin found in a bundle's `moduleinfo.json`.
#[derive(Debug, Clone)]
pub struct Vst3Plugin {
    pub bundle: String,
    pub name: String,
    pub vendor: String,
    pub class_uid: [u32; 4],
    pub categories: Vec<String>,
}

/// An Audio Unit component.
#[derive(Debug, Clone)]
pub struct AuPlugin {
    pub ty: u32,
    pub subtype: u32,
    pub manufacturer: u32,
    pub name: String,
    pub manufacturer_name: String,
}

/// An installed plugin.
#[derive(Debug, Clone)]
pub enum PluginEntry {
    Vst3(Vst3Plugin),
    AudioUnit(AuPlugin),
}

/// Stable string identifier of a plugin, used as the join key of the index.
#[derive(Debug, Clone, PartialEq, Eq, Hash)]
pub struct PluginKey(pub String);

/// `vst3:` and the four uid words as eight hex digits each.
pub open spec fn vst3_key(uid: [u32; 4]) -> Seq<char> {
    seq!['v', 's', 't', '3', ':'] + hex8(uid[0]) + hex8(uid[1]) + hex8(uid[2]) + hex8(uid[3])
}

/// The four characters a four-character code spells: its bytes,
/// most significant first, each as the character with that code.
pub open spec fn code_chars(v: u32) -> Seq<char> {
    seq![
        ((v / 0x1000000) as u8) as char,
        ((v / 0x10000 % 0x100) as u8) as char,
        ((v / 0x100 % 0x100) as u8) as char,
        ((v % 0x100) as u8) as char,
    ]
}

/// `au:type:subtype:manufacturer`, each spelled as its four characters
/// (`au:aumu:NIMX:-NI-`).
pub open spec fn au_key(ty: u32, subtype: u32, manu: u32) -> Seq<char> {
    seq!['a', 'u', ':'] + code_chars(ty) + seq![':'] + code_chars(subtype) + seq![':'] + code_chars(
        manu,
    )
}

/// `vst2:` and the magic as eight hex digits.
pub open spec fn vst2_key(magic: u32) -> Seq<char> {
    seq!['v', 's', 't', '2', ':'] + hex8(magic)
}

/// The key under which a `PLID` is looked up; none for an unknown plugin.
pub open spec fn plid_key(p: NksPluginId) -> Option<Seq<char>> {
    match p {
        NksPluginId::Vst3 { uid, .. } => Some(
            vst3_key([uid[0] as u32, uid[1] as u32, uid[2] as u32, uid[3] as u32]),
        ),
        NksPluginId::AudioUnit { ty, subtype, manufacturer, .. } => Some(
            au_key(ty, subtype, manufacturer),
        ),
        NksPluginId::Vst2 { magic } => Some(vst2_key(magic)),
        NksPluginId::Unknown => None,
    }
}

/// The key of an installed plugin.
pub open spec fn entry_key(e: PluginEntry) -> Seq<char> {
    match e {
        PluginEntry::Vst3(v) => vst3_key(v.class_uid),
        PluginEntry::AudioUnit(a) => au_key(a.ty, a.subtype, a.manufacturer),
    }
}

fn push_lit(out: &mut String, s: &str)
    ensures
        final(out)@ == old(out)@ + s@,
{
    out.append(s);
}

fn push_code(out: &mut String, v: u32)
    ensures
        final(out)@ == old(out)@ + code_chars(v),
{
    push_char(out, ((v / 0x1000000) as u8) as char);
    push_char(out, ((v / 0x10000 % 0x100) as u8) as char);
    push_char(out, ((v / 0x100 % 0x100) as u8) as char);
    push_char(out, ((v % 0x100) as u8) as char);
    assert(out@ =~= old(out)@ + code_chars(v));
}

impl PluginKey {
    pub open spec fn view(&self) -> Seq<char> {
        self.0@
    }

    pub fn from_vst3_uid(uid: [u32; 4]) -> (k: PluginKey)
        ensures
            k.view() == vst3_key(uid),
    {
        let mut s = String::new();
        proof {
            reveal_strlit("vst3:");
        }
        push_lit(&mut s, "vst3:");
        push_hex(&mut s, uid[0] as u64, 8);
        push_hex(&mut s, uid[1] as u64, 8);
        push_hex(&mut s, uid[2] as u64, 8);
        push_hex(&mut s, uid[3] as u64, 8);
        assert(s@ =~= vst3_key(uid));
        PluginKey(s)
    }

    pub fn from_au(ty: u32, subtype: u32, manu: u32) -> (k: PluginKey)
        ensures
            k.view() == au_key(ty, subtype, manu),
    {
        let mut s = String::new();
        proof {
            reveal_strlit("au:");
            reveal_strlit(":");
        }
        push_lit(&mut s, "au:");
        push_code(&mut s, ty);
        push_lit(&mut s, ":");
        push_code(&mut s, subtype);
        push_lit(&mut s, ":");
        push_code(&mut s, manu);
        assert(s@ =~= au_key(ty, subtype, manu));
        PluginKey(s)
    }

    pub fn from_vst2(magic: u32) -> (k: PluginKey)
        ensures
            k.view() == vst2_key(magic),
    {
        let mut s = String::new();
        proof {
            reveal_strlit("vst2:");
        }
        push_lit(&mut s, "vst2:");
        push_hex(&mut s, magic as u64, 8);
        assert(s@ =~= vst2_key(magic));
        PluginKey(s)
    }

    /// The key a `PLID` resolves under; `None` for an unknown plugin.
    pub fn from_plid(plid: &NksPluginId) -> (k: Option<PluginKey>)
        ensures
            match plid_key(*plid) {
                Some(s) => k matches Some(kk) && kk.view() == s,
                None => k is None,
            },
    {
        match plid {
            NksPluginId::Vst3 { uid, .. } => {
                let u: [u32; 4] = [uid[0] as u32, uid[1] as u32, uid[2] as u32, uid[3] as u32];
                Some(PluginKey::from_vst3_uid(u))
            },
            NksPluginId::AudioUnit { ty, subtype, manufacturer, .. } => Some(
                PluginKey::from_au(*ty, *subtype, *manufacturer),
            ),
            NksPluginId::Vst2 { magic } => Some(PluginKey::from_vst2(*magic)),
            NksPluginId::Unknown => None,
        }
    }

    /// The key of an installed plugin.
    pub fn from_entry(e: &PluginEntry) -> (k: PluginKey)
        ensures
            k.view() == entry_key(*e),
    {
        match e {
            PluginEntry::Vst3(v) => PluginKey::from_vst3_uid(v.class_uid),
            PluginEntry::AudioUnit(a) => PluginKey::from_au(a.ty, a.subtype, a.manufacturer),
        }
    }
}

/// The map from key to plugin after inserting `es` in order; a later
/// plugin with the same key replaces an earlier one.
pub open spec fn inserted(es: Seq<PluginEntry>) -> Map<Seq<char>, PluginEntry>
    decreases es.len(),
{
    if es.len() == 0 {
        Map::empty()
    } else {
        inserted(es.drop_last()).insert(entry_key(es.last()), es.last())
    }
}

/// The bundle paths of the VST3 plugins among `ps`, in order.
pub open spec fn vst3_bundles(ps: Seq<PluginEntry>) -> Seq<Seq<char>>
    decreases ps.len(),
{
    if ps.len() == 0 {
        seq![]
    } else {
        let rest = vst3_bundles(ps.drop_last());
        match ps.last() {
            PluginEntry::Vst3(v) => rest.push(v.bundle@),
            PluginEntry::AudioUnit(_) => rest,
        }
    }
}

/// Installed plugins by key.
pub struct Registry {
    entries: Vec<(PluginKey, PluginEntry)>,
}

/// The map view of a list of `(key, plugin)` pairs.
pub open spec fn map_of(s: Seq<(PluginKey, PluginEntry)>) -> Map<Seq<char>, PluginEntry>
    decreases s.len(),
{
    if s.len() == 0 {
        Map::empty()
    } else {
        map_of(s.drop_last()).insert(s.last().0.view(), s.last().1)
    }
}

/// No key occurs twice and each pair carries its plugin's key.
pub open spec fn distinct_keys(s: Seq<(PluginKey, PluginEntry)>) -> bool {
    &&& forall|i: int, j: int|
        0 <= i < j < s.len() ==> #[trigger] s[i].0.view() != #[trigger] s[j].0.view()
    &&& forall|i: int| 0 <= i < s.len() ==> #[trigger] s[i].0.view() == entry_key(s[i].1)
}

proof fn lemma_map_of_dom(s: Seq<(PluginKey, PluginEntry)>)
    ensures
        forall|k: Seq<char>|
            #[trigger] map_of(s).dom().contains(k) <==> exists|i: int|
                0 <= i < s.len() && #[trigger] s[i].0.view() == k,
        map_of(s).dom().finite(),
    decreases s.len(),
{
    if s.len() > 0 {
        lemma_map_of_dom(s.drop_last());
        assert forall|k: Seq<char>|
            #[trigger] map_of(s).dom().contains(k) <==> exists|i: int|
                0 <= i < s.len() && #[trigger] s[i].0.view() == k by {
            if map_of(s.drop_last()).dom().contains(k) {
                let i = choose|i: int|
                    0 <= i < s.drop_last().len() && #[trigger] s.drop_last()[i].0.view() == k;
                assert(s[i] == s.drop_last()[i]);
            }
            if exists|i: int| 0 <= i < s.len() && #[trigger] s[i].0.view() == k {
                let i = choose|i: int| 0 <= i < s.len() && #[trigger] s[i].0.view() == k;
                if i < s.len() - 1 {
                    assert(s.drop_last()[i] == s[i]);
                }
            }
        }
    }
}

proof fn lemma_map_of_distinct_len(s: Seq<(PluginKey, PluginEntry)>)
    requires
        distinct_keys(s),
    ensures
        map_of(s).dom().len() == s.len(),
    decreases s.len(),
{
    if s.len() > 0 {
        let t = s.drop_last();
        assert(distinct_keys(t)) by {
            assert forall|i: int, j: int| 0 <= i < j < t.len() implies #[trigger] t[i].0.view()
                != #[trigger] t[j].0.view() by {
                assert(t[i] == s[i] && t[j] == s[j]);
            }
            assert forall|i: int| 0 <= i < t.len() implies #[trigger] t[i].0.view() == entry_key(
                t[i].1,
            ) by {
                assert(t[i] == s[i]);
            }
        }
        lemma_map_of_distinct_len(t);
        lemma_map_of_dom(t);
        let k = s.last().0.view();
        if map_of(t).dom().contains(k) {
            let i = choose|i: int| 0 <= i < t.len() && #[trigger] t[i].0.view() == k;
            assert(s[i] == t[i]);
            assert(s[i].0.view() != s[s.len() - 1].0.view());
        }
    }
}

impl Registry {
    /// Key-to-plugin view.
    pub closed spec fn map(&self) -> Map<Seq<char>, PluginEntry> {
        map_of(self.entries@)
    }

    /// The plugins in insertion order (one per key).
    pub closed spec fn plugins(&self) -> Seq<PluginEntry> {
        self.entries@.map_values(|p: (PluginKey, PluginEntry)| p.1)
    }

    pub closed spec fn wf(&self) -> bool {
        distinct_keys(self.entries@)
    }

    /// An empty registry.
    pub fn new() -> (r: Registry)
        ensures
            r.wf(),
            r.map() == Map::<Seq<char>, PluginEntry>::empty(),
    {
        Registry { entries: Vec::new() }
    }

    /// Adds a plugin under its key, replacing a plugin with the same key.
    pub fn insert(&mut self, e: PluginEntry)
        requires
            old(self).wf(),
        ensures
            final(self).wf(),
            final(self).map() == old(self).map().insert(entry_key(e), e),
    {
        let key = PluginKey::from_entry(&e);
        let ghost s0 = self.entries@;
        let mut i: usize = 0;
        while i < self.entries.len()
            invariant
                i <= self.entries@.len(),
                self.entries@ == s0,
                old(self).entries@ == s0,
                distinct_keys(s0),
                key.view() == entry_key(e),
                forall|j: int| 0 <= j < i ==> #[trigger] s0[j].0.view() != key.view(),
            decreases self.entries@.len() - i,
        {
            if self.entries[i].0.0 == key.0 {
                self.entries.set(i, (key, e));
                proof {
                    lemma_replace(s0, i as int, (key, e));
                }
                return;
            }
            i = i + 1;
        }
        self.entries.push((key, e));
        proof {
            assert(self.entries@.drop_last() == s0);
            assert forall|a: int, b: int| 0 <= a < b < self.entries@.len() implies #[trigger] self.entries@[a].0.view()
                != #[trigger] self.entries@[b].0.view() by {
                if b == self.entries@.len() - 1 {
                    assert(self.entries@[a] == s0[a]);
                } else {
                    assert(self.entries@[a] == s0[a] && self.entries@[b] == s0[b]);
                }
            }
        }
    }

    /// The registry of the installed plugins found by a scan: VST3 plugins,
    /// then Audio Units, each in order; a later plugin with the same key
    /// replaces an earlier one.
    pub fn scan(vst3: Vec<Vst3Plugin>, au: Vec<AuPlugin>) -> (r: Registry)
        ensures
            r.wf(),
            r.map() == inserted(
                vst3@.map_values(|v: Vst3Plugin| PluginEntry::Vst3(v)) + au@.map_values(
                    |a: AuPlugin| PluginEntry::AudioUnit(a),
                ),
            ),
    {
        let ghost es = vst3@.map_values(|v: Vst3Plugin| PluginEntry::Vst3(v)) + au@.map_values(
            |a: AuPlugin| PluginEntry::AudioUnit(a),
        );
        let mut r = Registry::new();
        let ghost n1 = vst3@.len();
        let ghost n2 = au@.len();
        let mut vs = vst3;
        while vs.len() > 0
            invariant
                vs@.len() <= n1,
                r.wf(),
                n1 == vst3@.len(),
                vs@ == vst3@.skip(n1 - vs@.len()),
                r.map() == inserted(es.take(n1 - vs@.len())),
                es == vst3@.map_values(|v: Vst3Plugin| PluginEntry::Vst3(v)) + au@.map_values(
                    |a: AuPlugin| PluginEntry::AudioUnit(a),
                ),
            decreases vs@.len(),
        {
            let ghost i = n1 - vs@.len();
            let v = vs.remove(0);
            assert(v == vst3@[i]);
            assert(vs@ =~= vst3@.skip(n1 - vs@.len()));
            assert(es.take(i + 1).drop_last() == es.take(i));
            assert(es.take(i + 1).last() == PluginEntry::Vst3(v));
            r.insert(PluginEntry::Vst3(v));
        }
        let mut aus = au;
        while aus.len() > 0
            invariant
                aus@.len() <= n2,
                r.wf(),
                n1 == vst3@.len(),
                n2 == au@.len(),
                aus@ == au@.skip(n2 - aus@.len()),
                r.map() == inserted(es.take(n1 + n2 - aus@.len())),
                es == vst3@.map_values(|v: Vst3Plugin| PluginEntry::Vst3(v)) + au@.map_values(
                    |a: AuPlugin| PluginEntry::AudioUnit(a),
                ),
            decreases aus@.len(),
        {
            let ghost j = n2 - aus@.len();
            let a = aus.remove(0);
            assert(a == au@[j]);
            assert(aus@ =~= au@.skip(n2 - aus@.len()));
            assert(es.take(n1 + j + 1).drop_last() == es.take(n1 + j));
            assert(es.take(n1 + j + 1).last() == PluginEntry::AudioUnit(a));
            r.insert(PluginEntry::AudioUnit(a));
        }
        assert(es.take((n1 + n2) as int) == es);
        r
    }

    /// The installed plugin for a `PLID`, if any.
    pub fn resolve(&self, plid: &NksPluginId) -> (r: Option<&PluginEntry>)
        requires
            self.wf(),
        ensures
            match plid_key(*plid) {
                Some(k) => match r {
                    Some(e) => self.map().dom().contains(k) && *e == self.map()[k],
                    None => !self.map().dom().contains(k),
                },
                None => r is None,
            },
    {
        let key = match PluginKey::from_plid(plid) {
            Some(k) => k,
            None => {
                return None;
            },
        };
        proof {
            lemma_map_of_dom(self.entries@);
        }
        let mut i: usize = 0;
        while i < self.entries.len()
            invariant
                i <= self.entries@.len(),
                distinct_keys(self.entries@),
                plid_key(*plid) == Some(key.view()),
                forall|k: Seq<char>|
                    #[trigger] map_of(self.entries@).dom().contains(k) <==> exists|j: int|
                        0 <= j < self.entries@.len() && #[trigger] self.entries@[j].0.view() == k,
                forall|j: int| 0 <= j < i ==> #[trigger] self.entries@[j].0.view() != key.view(),
            decreases self.entries@.len() - i,
        {
            if self.entries[i].0.0 == key.0 {
                proof {
                    lemma_map_of_lookup(self.entries@, i as int);
                }
                return Some(&self.entries[i].1);
            }
            i = i + 1;
        }
        None
    }

    /// Number of distinct plugin keys.
    pub fn len(&self) -> (n: usize)
        requires
            self.wf(),
        ensures
            n == self.map().dom().len(),
    {
        proof {
            lemma_map_of_distinct_len(self.entries@);
        }
        self.entries.len()
    }

    /// The registry as a list and as a map agree: each listed plugin is
    /// what its key maps to, every key is listed, and no key twice.
    pub proof fn plugins_match_map(&self)
        requires
            self.wf(),
        ensures
            forall|j: int|
                0 <= j < self.plugins().len() ==> self.map().dom().contains(
                    entry_key(#[trigger] self.plugins()[j]),
                ) && self.map()[entry_key(self.plugins()[j])] == self.plugins()[j],
            forall|k: Seq<char>|
                #[trigger] self.map().dom().contains(k) ==> exists|j: int|
                    0 <= j < self.plugins().len() && entry_key(#[trigger] self.plugins()[j]) == k,
            forall|i: int, j: int|
                0 <= i < j < self.plugins().len() ==> entry_key(#[trigger] self.plugins()[i])
                    != entry_key(#[trigger] self.plugins()[j]),
    {
        let s = self.entries@;
        lemma_map_of_dom(s);
        assert forall|j: int| 0 <= j < self.plugins().len() implies self.map().dom().contains(
            entry_key(#[trigger] self.plugins()[j]),
        ) && self.map()[entry_key(self.plugins()[j])] == self.plugins()[j] by {
            lemma_map_of_lookup(s, j);
        }
        assert forall|k: Seq<char>| #[trigger] self.map().dom().contains(k) implies exists|j: int|
            0 <= j < self.plugins().len() && entry_key(#[trigger] self.plugins()[j]) == k by {
            let j = choose|j: int| 0 <= j < s.len() && #[trigger] s[j].0.view() == k;
            assert(self.plugins()[j] == s[j].1);
        }
        assert forall|i: int, j: int| 0 <= i < j < self.plugins().len() implies entry_key(
            #[trigger] self.plugins()[i],
        ) != entry_key(#[trigger] self.plugins()[j]) by {
            assert(s[i].0.view() != s[j].0.view());
        }
    }

    /// The bundle paths of the registered VST3 plugins, in registration
    /// order.
    pub fn bundles(&self) -> (b: Vec<String>)
        requires
            self.wf(),
        ensures
            b@.map_values(|p: String| p@) == vst3_bundles(self.plugins()),
    {
        let mut out: Vec<String> = Vec::new();
        let mut i: usize = 0;
        while i < self.entries.len()
            invariant
                i <= self.entries@.len(),
                out@.map_values(|p: String| p@) == vst3_bundles(self.plugins().take(i as int)),
                self.plugins() == self.entries@.map_values(|p: (PluginKey, PluginEntry)| p.1),
            decreases self.entries@.len() - i,
        {
            let ghost before = out@.map_values(|p: String| p@);
            let ghost t = self.plugins().take(i + 1);
            assert(t.drop_last() =~= self.plugins().take(i as int));
            assert(t.last() == self.entries@[i as int].1);
            match &self.entries[i].1 {
                PluginEntry::Vst3(v) => {
                    out.push(v.bundle.clone());
                    assert(out@.map_values(|p: String| p@) =~= before.push(v.bundle@));
                },
                PluginEntry::AudioUnit(_) => {},
            }
            i = i + 1;
        }
        assert(self.plugins().take(self.entries@.len() as int) =~= self.plugins());
        out
    }

    pub fn is_empty(&self) -> (e: bool)
        requires
            self.wf(),
        ensures
            e == (self.map().dom().len() == 0),
    {
        proof {
            lemma_map_of_distinct_len(self.entries@);
        }
        self.entries.len() == 0
    }
}

proof fn lemma_replace(s: Seq<(PluginKey, PluginEntry)>, i: int, p: (PluginKey, PluginEntry))
    requires
        distinct_keys(s),
        0 <= i < s.len(),
        s[i].0.view() == p.0.view(),
        p.0.view() == entry_key(p.1),
    ensures
        distinct_keys(s.update(i, p)),
        map_of(s.update(i, p)) == map_of(s).insert(p.0.view(), p.1),
    decreases s.len(),
{
    let t = s.update(i, p);
    assert forall|a: int, b: int| 0 <= a < b < t.len() implies #[trigger] t[a].0.view()
        != #[trigger] t[b].0.view() by {
        assert(s[a].0.view() != s[b].0.view());
    }
    if i == s.len() - 1 {
        assert(t.drop_last() == s.drop_last());
        lemma_map_of_dom(s.drop_last());
        assert(map_of(t) =~= map_of(s).insert(p.0.view(), p.1));
    } else {
        let sd = s.drop_last();
        assert(distinct_keys(sd)) by {
            assert forall|a: int, b: int| 0 <= a < b < sd.len() implies #[trigger] sd[a].0.view()
                != #[trigger] sd[b].0.view() by {
                assert(sd[a] == s[a] && sd[b] == s[b]);
            }
            assert forall|a: int| 0 <= a < sd.len() implies #[trigger] sd[a].0.view() == entry_key(
                sd[a].1,
            ) by {
                assert(sd[a] == s[a]);
            }
        }
        lemma_replace(sd, i, p);
        assert(t.drop_last() == sd.update(i, p));
        assert(s[s.len() - 1].0.view() != s[i].0.view());
        assert(map_of(t) =~= map_of(s).insert(p.0.view(), p.1));
    }
}

proof fn lemma_map_of_lookup(s: Seq<(PluginKey, PluginEntry)>, i: int)
    requires
        distinct_keys(s),
        0 <= i < s.len(),
    ensures
        map_of(s).dom().contains(s[i].0.view()),
        map_of(s)[s[i].0.view()] == s[i].1,
    decreases s.len(),
{
    if i < s.len() - 1 {
        let sd = s.drop_last();
        assert(distinct_keys(sd)) by {
            assert forall|a: int, b: int| 0 <= a < b < sd.len() implies #[trigger] sd[a].0.view()
                != #[trigger] sd[b].0.view() by {
                assert(sd[a] == s[a] && sd[b] == s[b]);
            }
            assert forall|a: int| 0 <= a < sd.len() implies #[trigger] sd[a].0.view() == entry_key(
                sd[a].1,
            ) by {
                assert(sd[a] == s[a]);
            }
        }
        lemma_map_of_lookup(sd, i);
        assert(sd[i] == s[i]);
        assert(s[s.len() - 1].0.view() != s[i].0.view());
    }
}

proof fn lemma_key_parts(a: [u32; 4])
    ensures
        vst3_key(a).len() == 37,
        vst3_key(a).subrange(5, 13) == hex8(a[0]),
        vst3_key(a).subrange(13, 21) == hex8(a[1]),
        vst3_key(a).subrange(21, 29) == hex8(a[2]),
        vst3_key(a).subrange(29, 37) == hex8(a[3]),
{
    lemma_hex_n_len(a[0] as nat, 8);
    lemma_hex_n_len(a[1] as nat, 8);
    lemma_hex_n_len(a[2] as nat, 8);
    lemma_hex_n_len(a[3] as nat, 8);
    let k = vst3_key(a);
    assert(k.subrange(5, 13) =~= hex8(a[0]));
    assert(k.subrange(13, 21) =~= hex8(a[1]));
    assert(k.subrange(21, 29) =~= hex8(a[2]));
    assert(k.subrange(29, 37) =~= hex8(a[3]));
}

proof fn lemma_au_key_parts(ty: u32, subtype: u32, manu: u32)
    ensures
        au_key(ty, subtype, manu).len() == 17,
        au_key(ty, subtype, manu).subrange(3, 7) == code_chars(ty),
        au_key(ty, subtype, manu).subrange(8, 12) == code_chars(subtype),
        au_key(ty, subtype, manu).subrange(13, 17) == code_chars(manu),
{
    let k = au_key(ty, subtype, manu);
    assert(k.subrange(3, 7) =~= code_chars(ty));
    assert(k.subrange(8, 12) =~= code_chars(subtype));
    assert(k.subrange(13, 17) =~= code_chars(manu));
}

/// Distinct codes spell distinct characters.
proof fn lemma_code_chars_injective(a: u32, b: u32)
    requires
        code_chars(a) == code_chars(b),
    ensures
        a == b,
{
    let (a0, a1, a2, a3) = (
        (a / 0x1000000) as u8,
        (a / 0x10000 % 0x100) as u8,
        (a / 0x100 % 0x100) as u8,
        (a % 0x100) as u8,
    );
    let (b0, b1, b2, b3) = (
        (b / 0x1000000) as u8,
        (b / 0x10000 % 0x100) as u8,
        (b / 0x100 % 0x100) as u8,
        (b % 0x100) as u8,
    );
    assert(code_chars(a)[0] == code_chars(b)[0]);
    assert(code_chars(a)[1] == code_chars(b)[1]);
    assert(code_chars(a)[2] == code_chars(b)[2]);
    assert(code_chars(a)[3] == code_chars(b)[3]);
    assert((a0 as char) as int == a0 as int && (b0 as char) as int == b0 as int);
    assert((a1 as char) as int == a1 as int && (b1 as char) as int == b1 as int);
    assert((a2 as char) as int == a2 as int && (b2 as char) as int == b2 as int);
    assert((a3 as char) as int == a3 as int && (b3 as char) as int == b3 as int);
    assert(a / 0x1000000 == b / 0x1000000);
    assert(a / 0x10000 % 0x100 == b / 0x10000 % 0x100);
    assert(a / 0x100 % 0x100 == b / 0x100 % 0x100);
    assert(a % 0x100 == b % 0x100);
    assert(a == b) by (bit_vector)
        requires
            a / 0x1000000 == b / 0x1000000,
            a / 0x10000 % 0x100 == b / 0x10000 % 0x100,
            a / 0x100 % 0x100 == b / 0x100 % 0x100,
            a % 0x100 == b % 0x100,
    ;
}

/// A plugin key names one plugin: equal VST3 keys come from equal class
/// uids, equal AU keys from equal `(type, subtype, manufacturer)` triples,
/// equal VST2 keys from equal magics, and keys of different kinds differ.
pub proof fn keys_identify_plugins(
    a: [u32; 4],
    b: [u32; 4],
    t1: u32,
    s1: u32,
    m1: u32,
    t2: u32,
    s2: u32,
    m2: u32,
    g1: u32,
    g2: u32,
)
    ensures
        vst3_key(a) == vst3_key(b) ==> a == b,
        au_key(t1, s1, m1) == au_key(t2, s2, m2) ==> t1 == t2 && s1 == s2 && m1 == m2,
        vst2_key(g1) == vst2_key(g2) ==> g1 == g2,
        vst3_key(a) != au_key(t1, s1, m1),
        vst3_key(a) != vst2_key(g1),
        au_key(t1, s1, m1) != vst2_key(g1),
{
    lemma_key_parts(a);
    lemma_key_parts(b);
    lemma_au_key_parts(t1, s1, m1);
    lemma_au_key_parts(t2, s2, m2);
    if vst3_key(a) == vst3_key(b) {
        hex8_injective(a[0], b[0]);
        hex8_injective(a[1], b[1]);
        hex8_injective(a[2], b[2]);
        hex8_injective(a[3], b[3]);
        assert(a =~= b);
    }
    if au_key(t1, s1, m1) == au_key(t2, s2, m2) {
        lemma_code_chars_injective(t1, t2);
        lemma_code_chars_injective(s1, s2);
        lemma_code_chars_injective(m1, m2);
    }
    if vst2_key(g1) == vst2_key(g2) {
        lemma_hex_n_len(g1 as nat, 8);
        lemma_hex_n_len(g2 as nat, 8);
        assert(vst2_key(g1).subrange(5, 13) =~= hex8(g1));
        assert(vst2_key(g2).subrange(5, 13) =~= hex8(g2));
        hex8_injective(g1, g2);
    }
    assert(vst3_key(a)[0] == 'v' && au_key(t1, s1, m1)[0] == 'a');
    assert(vst3_key(a)[3] == '3' && vst2_key(g1)[3] == '2');
    assert(vst2_key(g1)[0] == 'v');
}

proof fn lemma_inserted_last_wins(es: Seq<PluginEntry>, i: int)
    requires
        0 <= i < es.len(),
        forall|j: int| i < j < es.len() ==> entry_key(#[trigger] es[j]) != entry_key(es[i]),
    ensures
        inserted(es).dom().contains(entry_key(es[i])),
        inserted(es)[entry_key(es[i])] == es[i],
    decreases es.len(),
{
    if i < es.len() - 1 {
        let front = es.drop_last();
        assert forall|j: int| i < j < front.len() implies entry_key(
            #[trigger] front[j],
        ) != entry_key(front[i]) by {
            assert(front[j] == es[j]);
        }
        lemma_inserted_last_wins(front, i);
        assert(entry_key(es[es.len() - 1]) != entry_key(es[i]));
    }
}

/// Resolution finds what was registered: when the `i`-th VST3 plugin is the
/// last one registered with its class uid, a preset whose `PLID` carries
/// that uid (its words read as unsigned) resolves under that plugin's key
/// to that plugin; Audio Units registered after it never shadow it.
pub proof fn registered_vst3_resolves(
    vst3: Seq<Vst3Plugin>,
    au: Seq<AuPlugin>,
    i: int,
    uid: [i32; 4],
    name: Option<String>,
)
    requires
        0 <= i < vst3.len(),
        forall|j: int| i < j < vst3.len() ==> (#[trigger] vst3[j]).class_uid != vst3[i].class_uid,
        forall|k: int| 0 <= k < 4 ==> uid[k] as u32 == vst3[i].class_uid[k],
    ensures
        ({
            let es = vst3.map_values(|v: Vst3Plugin| PluginEntry::Vst3(v)) + au.map_values(
                |a: AuPlugin| PluginEntry::AudioUnit(a),
            );
            let k = vst3_key(vst3[i].class_uid);
            &&& plid_key(NksPluginId::Vst3 { uid, name }) == Some(k)
            &&& inserted(es).dom().contains(k)
            &&& inserted(es)[k] == PluginEntry::Vst3(vst3[i])
        }),
{
    let es = vst3.map_values(|v: Vst3Plugin| PluginEntry::Vst3(v)) + au.map_values(
        |a: AuPlugin| PluginEntry::AudioUnit(a),
    );
    let u = vst3[i].class_uid;
    assert([uid[0] as u32, uid[1] as u32, uid[2] as u32, uid[3] as u32] =~= u);
    assert(es[i] == PluginEntry::Vst3(vst3[i]));
    assert forall|j: int| i < j < es.len() implies entry_key(#[trigger] es[j]) != entry_key(
        es[i],
    ) by {
        if j < vst3.len() {
            assert(es[j] == PluginEntry::Vst3(vst3[j]));
            keys_identify_plugins(vst3[j].class_uid, u, 0, 0, 0, 0, 0, 0, 0, 0);
        } else {
            let a = au[j - vst3.len()];
            assert(es[j] == PluginEntry::AudioUnit(a));
            keys_identify_plugins(u, u, a.ty, a.subtype, a.manufacturer, 0, 0, 0, 0, 0);
        }
    }
    lemma_inserted_last_wins(es, i);
}

/// Resolution finds registered Audio Units too: when the `i`-th Audio Unit
/// is the last one registered with its `(type, subtype, manufacturer)`, a
/// preset whose `PLID` names that triple resolves to it; VST3 plugins never
/// shadow it.
pub proof fn registered_au_resolves(
    vst3: Seq<Vst3Plugin>,
    au: Seq<AuPlugin>,
    i: int,
    name: Option<String>,
)
    requires
        0 <= i < au.len(),
        forall|j: int|
            i < j < au.len() ==> !((#[trigger] au[j]).ty == au[i].ty && au[j].subtype == au[i].subtype
                && au[j].manufacturer == au[i].manufacturer),
    ensures
        ({
            let es = vst3.map_values(|v: Vst3Plugin| PluginEntry::Vst3(v)) + au.map_values(
                |a: AuPlugin| PluginEntry::AudioUnit(a),
            );
            let k = au_key(au[i].ty, au[i].subtype, au[i].manufacturer);
            &&& plid_key(
                NksPluginId::AudioUnit {
                    ty: au[i].ty,
                    subtype: au[i].subtype,
                    manufacturer: au[i].manufacturer,
                    name,
                },
            ) == Some(k)
            &&& inserted(es).dom().contains(k)
            &&& inserted(es)[k] == PluginEntry::AudioUnit(au[i])
        }),
{
    let es = vst3.map_values(|v: Vst3Plugin| PluginEntry::Vst3(v)) + au.map_values(
        |a: AuPlugin| PluginEntry::AudioUnit(a),
    );
    let n = vst3.len() as int;
    let a = au[i];
    assert(es[n + i] == PluginEntry::AudioUnit(a));
    assert forall|j: int| n + i < j < es.len() implies entry_key(#[trigger] es[j]) != entry_key(
        es[n + i],
    ) by {
        let b = au[j - n];
        assert(es[j] == PluginEntry::AudioUnit(b));
        keys_identify_plugins([0, 0, 0, 0], [0, 0, 0, 0], b.ty, b.subtype, b.manufacturer, a.ty, a.subtype, a.manufacturer, 0, 0);
    }
    lemma_inserted_last_wins(es, n + i);
}

} // verus!
