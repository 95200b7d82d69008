//! `PLID` chunk: plugin identification, classified into VST3, AU, VST2 or
//! unknown from the keys the chunk carries.
use vstd::prelude::*;

verus! {

/// Plugin a preset belongs to.
#[derive(Debug, Clone, PartialEq, Eq)]
pub enum NksPluginId {
    Vst3 { uid: [i32; 4], name: Option<String> },
    Vst2 { magic: u32 },
    AudioUnit { ty: u32, subtype: u32, manufacturer: u32, name: Option<String> },
    Unknown,
}

/// The recognised keys of a `PLID` map, each absent when the chunk lacks it.
#[derive(Debug, Clone, Default)]
pub struct PlidFields {
    /// `VST3.uid`: four 32-bit words as stored.
    pub vst3_uid: Option<Vec<i64>>,
    /// `VST3.plugin_name`.
    pub vst3_plugin_name: Option<String>,
    /// `VST.magic`.
    pub vst2_magic: Option<i64>,
    /// `AU.type`, `AU.subtype`, `AU.manufacturer`.
    pub au_type: Option<u32>,
    pub au_subtype: Option<u32>,
    pub au_manufacturer: Option<u32>,
    /// `AU.name`.
    pub au_name: Option<String>,
    /// `plugin_name`.
    pub plugin_name: Option<String>,
}

/// `a`, or `b` when `a` is absent.
pub open spec fn or_name(a: Option<String>, b: Option<String>) -> Option<String> {
    match a {
        Some(x) => Some(x),
        None => b,
    }
}

/// The classification of a `PLID` map: a four-word VST3 uid wins, then a
/// complete AU triple, then a VST2 magic; otherwise unknown.
pub open spec fn classify_spec(f: PlidFields) -> NksPluginId {
    if f.vst3_uid is Some && f.vst3_uid->0@.len() == 4 {
        let v = f.vst3_uid->0@;
        NksPluginId::Vst3 {
            uid: [v[0] as i32, v[1] as i32, v[2] as i32, v[3] as i32],
            name: or_name(f.vst3_plugin_name, f.plugin_name),
        }
    } else if f.au_type is Some && f.au_subtype is Some && f.au_manufacturer is Some {
        NksPluginId::AudioUnit {
            ty: f.au_type->0,
            subtype: f.au_subtype->0,
            manufacturer: f.au_manufacturer->0,
            name: or_name(f.au_name, f.plugin_name),
        }
    } else if f.vst2_magic is Some {
        NksPluginId::Vst2 { magic: f.vst2_magic->0 as u32 }
    } else {
        NksPluginId::Unknown
    }
}

fn or_else_name(a: Option<String>, b: Option<String>) -> (r: Option<String>)
    ensures
        r == or_name(a, b),
{
    match a {
        Some(x) => Some(x),
        None => b,
    }
}

/// Classifies the keys of a `PLID` chunk.
pub fn classify(f: PlidFields) -> (id: NksPluginId)
    ensures
        id == classify_spec(f),
{
    let ghost f0 = f;
    let PlidFields {
        vst3_uid,
        vst3_plugin_name,
        vst2_magic,
        au_type,
        au_subtype,
        au_manufacturer,
        au_name,
        plugin_name,
    } = f;
    if let Some(v) = vst3_uid {
        if v.len() == 4 {
            let uid: [i32; 4] = [v[0] as i32, v[1] as i32, v[2] as i32, v[3] as i32];
            return NksPluginId::Vst3 { uid, name: or_else_name(vst3_plugin_name, plugin_name) };
        }
    }
    if let (Some(t), Some(s), Some(m)) = (au_type, au_subtype, au_manufacturer) {
        return NksPluginId::AudioUnit {
            ty: t,
            subtype: s,
            manufacturer: m,
            name: or_else_name(au_name, plugin_name),
        };
    }
    if let Some(m) = vst2_magic {
        return NksPluginId::Vst2 { magic: m as u32 };
    }
    NksPluginId::Unknown
}

/// What a `PLID` chunk is classified as, by the keys it carries: a chunk
/// with a four-word VST3 uid is a VST3 plugin with those words, whatever AU
/// or VST2 keys it also carries, named by `VST3.plugin_name` or else
/// `plugin_name`; one without such a uid but with all three AU codes is an
/// Audio Unit with those codes; one with neither but a VST2 magic is a VST2
/// plugin with the magic's low 32 bits; anything else is unknown.
pub proof fn classify_prefers_vst3(f: PlidFields)
    ensures
        f.vst3_uid is Some && f.vst3_uid->0@.len() == 4 ==> {
            let v = f.vst3_uid->0@;
            let id = classify_spec(f);
            &&& id is Vst3
            &&& id->uid[0] == v[0] as i32 && id->uid[1] == v[1] as i32
            &&& id->uid[2] == v[2] as i32 && id->uid[3] == v[3] as i32
            &&& id->Vst3_name == (if f.vst3_plugin_name is Some {
                f.vst3_plugin_name
            } else {
                f.plugin_name
            })
        },
        !(f.vst3_uid is Some && f.vst3_uid->0@.len() == 4) && f.au_type is Some && f.au_subtype is Some
            && f.au_manufacturer is Some ==> {
            let id = classify_spec(f);
            &&& id is AudioUnit
            &&& id->ty == f.au_type->0 && id->subtype == f.au_subtype->0
            &&& id->manufacturer == f.au_manufacturer->0
        },
        !(f.vst3_uid is Some && f.vst3_uid->0@.len() == 4) && !(f.au_type is Some && f.au_subtype is Some
            && f.au_manufacturer is Some) && f.vst2_magic is Some ==> classify_spec(f) == (
        NksPluginId::Vst2 { magic: f.vst2_magic->0 as u32 }),
        !(f.vst3_uid is Some && f.vst3_uid->0@.len() == 4) && !(f.au_type is Some && f.au_subtype is Some
            && f.au_manufacturer is Some) && f.vst2_magic is None ==> classify_spec(f)
            == NksPluginId::Unknown,
{
}

} // verus!
