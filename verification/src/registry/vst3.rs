//! VST3 discovery: the class id of a bundle's `moduleinfo.json`.
use vstd::prelude::*;
use vstd::string::StringSliceAdditionalSpecFns;
use crate::registry::resolve::Vst3Plugin;
use crate::text::str_equal;

verus! {

/// Index of the first byte of `b` from `k` on that is not part of a
/// leading run of `0x` pairs.
pub open spec fn skip_0x(b: Seq<u8>, k: int) -> int
    decreases b.len() - k,
{
    if 0 <= k && k + 2 <= b.len() && b[k] == 0x30 && b[k + 1] == 0x78 {
        skip_0x(b, k + 2)
    } else {
        k
    }
}

/// Value of an ASCII hexadecimal digit, either case.
pub open spec fn hex_value(c: u8) -> Option<int> {
    if 0x30 <= c <= 0x39 {
        Some(c - 0x30)
    } else if 0x61 <= c <= 0x66 {
        Some(c - 0x61 + 10)
    } else if 0x41 <= c <= 0x46 {
        Some(c - 0x41 + 10)
    } else {
        None
    }
}

/// Value of a run of hexadecimal digits, most significant first; `None`
/// when a byte is not a digit.
pub open spec fn hex_digits(b: Seq<u8>) -> Option<int>
    decreases b.len(),
{
    if b.len() == 0 {
        Some(0)
    } else {
        match (hex_digits(b.drop_last()), hex_value(b.last())) {
            (Some(h), Some(d)) => Some(h * 16 + d),
            _ => None,
        }
    }
}

/// An eight-byte hexadecimal word as `u32::from_str_radix(_, 16)` reads it:
/// an optional leading `+`, then digits only.
pub open spec fn hex_word(w: Seq<u8>) -> Option<u32> {
    let digits = if w.len() > 0 && w[0] == 0x2b {
        w.subrange(1, w.len() as int)
    } else {
        w
    };
    match hex_digits(digits) {
        Some(v) => Some(v as u32),
        None => None,
    }
}

/// Byte `i` of `b` begins a character (it is no UTF-8 continuation byte).
pub open spec fn starts_char(b: Seq<u8>, i: int) -> bool {
    b[i] < 0x80 || b[i] >= 0xC0
}

/// The class id after the leading `0x` pairs: 32 hexadecimal digits read
/// as four big-endian words.
pub open spec fn cid_words(b: Seq<u8>) -> Option<[u32; 4]> {
    let k = skip_0x(b, 0);
    if b.len() - k != 32 {
        None
    } else {
        match (
            hex_word(b.subrange(k, k + 8)),
            hex_word(b.subrange(k + 8, k + 16)),
            hex_word(b.subrange(k + 16, k + 24)),
            hex_word(b.subrange(k + 24, k + 32)),
        ) {
            (Some(w0), Some(w1), Some(w2), Some(w3)) => Some([w0, w1, w2, w3]),
            _ => None,
        }
    }
}

/// Cutting the 32 bytes after the leading `0x` pairs into four words splits
/// no character (the text cannot be cut at a byte inside a character).
pub open spec fn cid_cuts_whole(b: Seq<u8>) -> bool {
    let k = skip_0x(b, 0);
    b.len() - k == 32 ==> starts_char(b, k + 8) && starts_char(b, k + 16) && starts_char(
        b,
        k + 24,
    )
}

proof fn lemma_skip_0x(b: Seq<u8>, k: int)
    requires
        0 <= k <= b.len(),
    ensures
        k <= skip_0x(b, k) <= b.len(),
    decreases b.len() - k,
{
    if k + 2 <= b.len() && b[k] == 0x30 && b[k + 1] == 0x78 {
        lemma_skip_0x(b, k + 2);
    }
}

proof fn lemma_hex_digits_none(b: Seq<u8>, i: int, j: int)
    requires
        0 <= i <= j <= b.len(),
        hex_digits(b.take(i)) is None,
    ensures
        hex_digits(b.take(j)) is None,
    decreases j - i,
{
    if i < j {
        lemma_hex_digits_none(b, i, j - 1);
        assert(b.take(j).drop_last() =~= b.take(j - 1));
    }
}

fn hex_value_of(c: u8) -> (v: Option<u8>)
    ensures
        match hex_value(c) {
            Some(d) => v == Some(d as u8),
            None => v is None,
        },
{
    if 0x30 <= c && c <= 0x39 {
        Some(c - 0x30)
    } else if 0x61 <= c && c <= 0x66 {
        Some(c - 0x61 + 10)
    } else if 0x41 <= c && c <= 0x46 {
        Some(c - 0x41 + 10)
    } else {
        None
    }
}

fn parse_word(b: &[u8], start: usize) -> (w: Option<u32>)
    requires
        start + 8 <= b@.len(),
    ensures
        w == hex_word(b@.subrange(start as int, start + 8)),
{
    let ghost word = b@.subrange(start as int, start + 8);
    let first = if b[start] == 0x2b {
        start + 1
    } else {
        start
    };
    let ghost digits = b@.subrange(first as int, start + 8);
    assert(digits == if word[0] == 0x2b {
        word.subrange(1, 8)
    } else {
        word
    });
    let end = start + 8;
    let mut v: u64 = 0;
    let mut i: usize = first;
    proof {
        vstd::arithmetic::power::lemma_pow0(16);
        assert(b@.subrange(first as int, first as int) =~= Seq::<u8>::empty());
    }
    let ghost mut bound: int = 1;
    while i < end
        invariant
            end == start + 8,
            first <= i <= start + 8,
            start + 8 <= b@.len(),
            first == start || first == start + 1,
            digits == b@.subrange(first as int, start + 8),
            hex_word(b@.subrange(start as int, start + 8)) == match hex_digits(digits) {
                Some(x) => Some(x as u32),
                None => None,
            },
            hex_digits(b@.subrange(first as int, i as int)) == Some(v as int),
            bound == vstd::arithmetic::power::pow(16, (i - first) as nat),
            v < bound,
        decreases start + 8 - i,
    {
        let d = hex_value_of(b[i]);
        let ghost pre = b@.subrange(first as int, i + 1);
        assert(pre.drop_last() =~= b@.subrange(first as int, i as int));
        assert(pre.last() == b@[i as int]);
        match d {
            Some(d) => {
                proof {
                    assert(i + 1 - first <= 8);
                    vstd::arithmetic::power::lemma_pow_adds(16, (i - first) as nat, 1);
                    vstd::arithmetic::power::lemma_pow1(16);
                    assert(vstd::arithmetic::power::pow(16, 8) == 0x1_0000_0000) by {
                        reveal_with_fuel(vstd::arithmetic::power::pow, 9);
                    }
                    vstd::arithmetic::power::lemma_pow_increases(16, (i + 1 - first) as nat, 8);
                    assert(v * 16 + d < bound * 16) by (nonlinear_arith)
                        requires
                            v < bound,
                            d < 16,
                    ;
                    bound = bound * 16;
                }
                v = v * 16 + d as u64;
            },
            None => {
                proof {
                    let rest = b@.subrange(first as int, start + 8);
                    assert(pre =~= rest.take(i + 1 - first));
                    lemma_hex_digits_none(rest, i + 1 - first, rest.len() as int);
                    assert(rest.take(rest.len() as int) =~= rest);
                    assert(hex_digits(digits) is None);
                }
                return None;
            },
        }
        i = i + 1;
    }
    proof {
        assert(vstd::arithmetic::power::pow(16, 8) == 0x1_0000_0000) by {
            reveal_with_fuel(vstd::arithmetic::power::pow, 9);
        }
        vstd::arithmetic::power::lemma_pow_increases(16, (i - first) as nat, 8);
    }
    Some(v as u32)
}

fn skip_prefix(b: &[u8]) -> (k: usize)
    ensures
        k == skip_0x(b@, 0),
        k <= b@.len(),
{
    let mut k: usize = 0;
    proof {
        lemma_skip_0x(b@, 0);
    }
    while b.len() - k >= 2 && b[k] == 0x30 && b[k + 1] == 0x78
        invariant
            k <= b@.len(),
            skip_0x(b@, k as int) == skip_0x(b@, 0),
        decreases b@.len() - k,
    {
        k = k + 2;
    }
    proof {
        lemma_skip_0x(b@, k as int);
    }
    k
}

/// Whether cutting a class id into its four words would split a character,
/// which `parse_cid` does not accept.
pub fn cid_splits_char(cid: &str) -> (r: bool)
    ensures
        r == !cid_cuts_whole(cid.spec_bytes()),
{
    let b = cid.as_bytes();
    let k = skip_prefix(b);
    if b.len() - k != 32 {
        return false;
    }
    let c8 = b[k + 8];
    let c16 = b[k + 16];
    let c24 = b[k + 24];
    !((c8 < 0x80 || c8 >= 0xC0) && (c16 < 0x80 || c16 >= 0xC0) && (c24 < 0x80 || c24 >= 0xC0))
}

/// A VST3 class id (`CID`): 32 hexadecimal digits after any leading `0x`
/// pairs, as four big-endian 32-bit words; `None` when the length is not 32
/// bytes or a word is not a hexadecimal number.
pub fn parse_cid(cid: &str) -> (r: Option<[u32; 4]>)
    requires
        cid_cuts_whole(cid.spec_bytes()),
    ensures
        r == cid_words(cid.spec_bytes()),
{
    let b = cid.as_bytes();
    let k = skip_prefix(b);
    if b.len() - k != 32 {
        return None;
    }
    let w0 = parse_word(b, k);
    let w1 = parse_word(b, k + 8);
    let w2 = parse_word(b, k + 16);
    let w3 = parse_word(b, k + 24);
    match (w0, w1, w2, w3) {
        (Some(a), Some(b1), Some(c), Some(d)) => Some([a, b1, c, d]),
        _ => None,
    }
}

/// One class listed in a bundle's `moduleinfo.json`.
#[derive(Debug, Clone)]
pub struct ClassInfo {
    pub name: String,
    pub category: String,
    pub cid: String,
    pub sub_categories: Vec<String>,
}

/// Index of the first class of category `Audio Module Class`, if any.
pub open spec fn first_audio_class(classes: Seq<ClassInfo>, i: int) -> Option<int>
    decreases classes.len() - i,
{
    if i < 0 || i >= classes.len() {
        None
    } else if classes[i].category@ == "Audio Module Class"@ {
        Some(i)
    } else {
        first_audio_class(classes, i + 1)
    }
}

/// The plugin a bundle offers: its first audio-module class, when that
/// class's id parses; its categories are the class category followed by
/// the subcategories.
pub fn plugin_from_module(bundle: &String, vendor: &String, classes: &Vec<ClassInfo>) -> (r: Option<
    Vst3Plugin,
>)
    requires
        first_audio_class(classes@, 0) matches Some(k) ==> cid_cuts_whole(
            vstd::utf8::encode_utf8(classes@[k].cid@),
        ),
    ensures
        match first_audio_class(classes@, 0) {
            None => r is None,
            Some(k) => match cid_words(vstd::utf8::encode_utf8(classes@[k].cid@)) {
                None => r is None,
                Some(uid) => r matches Some(p) && {
                    &&& p.bundle@ == bundle@
                    &&& p.name@ == classes@[k].name@
                    &&& p.vendor@ == vendor@
                    &&& p.class_uid == uid
                    &&& p.categories@.map_values(|c: String| c@) == seq![classes@[k].category@]
                        + classes@[k].sub_categories@.map_values(|c: String| c@)
                },
            },
        },
{
    proof {
        reveal_strlit("Audio Module Class");
    }
    let mut i: usize = 0;
    while i < classes.len()
        invariant
            i <= classes@.len(),
            first_audio_class(classes@, i as int) == first_audio_class(classes@, 0),
        ensures
            i < classes@.len() ==> first_audio_class(classes@, 0) == Some(i as int),
            i >= classes@.len() ==> first_audio_class(classes@, 0) is None,
        decreases classes@.len() - i,
    {
        if str_equal(classes[i].category.as_str(), "Audio Module Class") {
            break;
        }
        i = i + 1;
    }
    if i >= classes.len() {
        return None;
    }
    let class = &classes[i];
    let uid = match parse_cid(class.cid.as_str()) {
        Some(u) => u,
        None => {
            return None;
        },
    };
    let mut categories: Vec<String> = Vec::new();
    categories.push(class.category.clone());
    let mut j: usize = 0;
    while j < class.sub_categories.len()
        invariant
            j <= class.sub_categories@.len(),
            categories@.map_values(|c: String| c@) == seq![class.category@]
                + class.sub_categories@.take(j as int).map_values(|c: String| c@),
        decreases class.sub_categories@.len() - j,
    {
        let ghost before = categories@;
        let c = class.sub_categories[j].clone();
        categories.push(c);
        assert(categories@.map_values(|c: String| c@) =~= before.map_values(|c: String| c@).push(
            c@,
        ));
        assert(class.sub_categories@.take(j + 1).map_values(|c: String| c@)
            =~= class.sub_categories@.take(j as int).map_values(|c: String| c@).push(
            class.sub_categories@[j as int]@,
        ));
        j = j + 1;
    }
    assert(class.sub_categories@.take(class.sub_categories@.len() as int) =~= class.sub_categories@);
    Some(
        Vst3Plugin {
            bundle: bundle.clone(),
            name: class.name.clone(),
            vendor: vendor.clone(),
            class_uid: uid,
            categories,
        },
    )
}

} // verus!
