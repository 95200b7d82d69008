//! What loading a preset into the plugin host needs: the installed plugin
//! bundle for the preset's `PLID`, and the plugin state as base64 text.
use vstd::prelude::*;
use base64::Engine;
use crate::nks::plid::NksPluginId;
use crate::registry::resolve::{plid_key, PluginEntry, Registry};

verus! {

/// The base64 alphabet of RFC 4648: `A-Z`, `a-z`, `0-9`, `+`, `/`.
pub open spec fn b64_digit(v: int) -> char {
    if v < 26 {
        (('A' as int) + v) as char
    } else if v < 52 {
        (('a' as int) + v - 26) as char
    } else if v < 62 {
        (('0' as int) + v - 52) as char
    } else if v == 62 {
        '+'
    } else {
        '/'
    }
}

/// Standard base64 with `=` padding: every three bytes become four
/// characters of six bits each; a last group of one or two bytes is padded
/// to four characters.
pub open spec fn base64_of(b: Seq<u8>) -> Seq<char>
    decreases b.len(),
{
    if b.len() == 0 {
        seq![]
    } else if b.len() == 1 {
        seq![b64_digit(b[0] as int / 4), b64_digit((b[0] % 4) * 16), '=', '=']
    } else if b.len() == 2 {
        seq![
            b64_digit(b[0] as int / 4),
            b64_digit((b[0] % 4) * 16 + b[1] / 16),
            b64_digit((b[1] % 16) * 4),
            '=',
        ]
    } else {
        seq![
            b64_digit(b[0] as int / 4),
            b64_digit((b[0] % 4) * 16 + b[1] / 16),
            b64_digit((b[1] % 16) * 4 + b[2] / 64),
            b64_digit(b[2] as int % 64),
        ] + base64_of(b.subrange(3, b.len() as int))
    }
}

/// Length of the padded encoding of `n` bytes.
pub open spec fn base64_len(n: int) -> int {
    (n / 3) * 4 + if n % 3 > 0 {
        4int
    } else {
        0
    }
}

/// `base64::engine::general_purpose::STANDARD.encode`: the standard
/// alphabet with padding. The crate panics when the encoded length does
/// not fit in `usize`, so such inputs are excluded.
#[verifier::external_body]
fn encode_standard(bytes: &[u8]) -> (s: String)
    requires
        base64_len(bytes@.len() as int) <= usize::MAX,
    ensures
        s@ == base64_of(bytes@),
{
    base64::engine::general_purpose::STANDARD.encode(bytes)
}

/// The plugin state as the plugin host expects it: standard base64.
pub fn state_base64(state: &[u8]) -> (s: String)
    requires
        base64_len(state@.len() as int) <= usize::MAX,
    ensures
        s@ == base64_of(state@),
{
    encode_standard(state)
}

/// Why a preset cannot be loaded.
#[derive(Debug, Clone, PartialEq, Eq)]
pub enum LoadRefusal {
    /// No installed plugin matches the preset's `PLID`.
    NotInstalled,
    /// The plugin is an Audio Unit (named), which the plugin host does not
    /// load yet.
    AudioUnit(String),
}

/// The plugin bundle to load for a preset whose plugin is `plugin`: the
/// installed VST3 plugin it resolves to. An unknown or uninstalled plugin,
/// and an Audio Unit, are refused.
pub fn load_target(registry: &Registry, plugin: &NksPluginId) -> (r: Result<String, LoadRefusal>)
    requires
        registry.wf(),
    ensures
        match plid_key(*plugin) {
            Some(k) if registry.map().dom().contains(k) => match registry.map()[k] {
                PluginEntry::Vst3(v) => r matches Ok(b) && b@ == v.bundle@,
                PluginEntry::AudioUnit(a) => r matches Err(LoadRefusal::AudioUnit(n))
                    && n@ == a.name@,
            },
            _ => r == Err::<String, LoadRefusal>(LoadRefusal::NotInstalled),
        },
{
    match registry.resolve(plugin) {
        Some(PluginEntry::Vst3(v)) => Ok(v.bundle.clone()),
        Some(PluginEntry::AudioUnit(a)) => Err(LoadRefusal::AudioUnit(a.name.clone())),
        None => Err(LoadRefusal::NotInstalled),
    }
}

} // verus!
