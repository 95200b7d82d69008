//! Audio Unit discovery: the component codes listed by `auval -a`.
use vstd::prelude::*;
use vstd::string::StringSliceAdditionalSpecFns;
use crate::registry::resolve::AuPlugin;

verus! {

/// A four-character code: exactly four bytes, read big-endian.
pub open spec fn fourcc_of(b: Seq<u8>) -> Option<u32> {
    if b.len() != 4 {
        None
    } else {
        Some((b[0] * 0x1000000 + b[1] * 0x10000 + b[2] * 0x100 + b[3]) as u32)
    }
}

/// The four-character code spelled by `s` (its UTF-8 bytes); `None` unless
/// it is exactly four bytes long.
pub fn fourcc(s: &str) -> (r: Option<u32>)
    ensures
        r == fourcc_of(s.spec_bytes()),
{
    let b = s.as_bytes();
    if b.len() != 4 {
        return None;
    }
    Some((b[0] as u32) * 0x1000000 + (b[1] as u32) * 0x10000 + (b[2] as u32) * 0x100 + (b[3] as u32))
}

/// Unicode white space (`char::is_whitespace`).
pub open spec fn is_ws(c: char) -> bool {
    ('\t' <= c && c <= '\r') || c == ' ' || c == '\u{85}' || c == '\u{a0}' || c == '\u{1680}' || (
    '\u{2000}' <= c && c <= '\u{200a}') || c == '\u{2028}' || c == '\u{2029}' || c == '\u{202f}'
        || c == '\u{205f}' || c == '\u{3000}'
}

/// Index of the first white-space character of `s` from `i` on (the
/// length when there is none).
pub open spec fn find_ws(s: Seq<char>, i: int) -> int
    decreases s.len() - i,
{
    if i < 0 || i >= s.len() {
        s.len() as int
    } else if is_ws(s[i]) {
        i
    } else {
        find_ws(s, i + 1)
    }
}

/// Index of the first other character of `s` from `i` on.
pub open spec fn skip_ws(s: Seq<char>, i: int) -> int
    decreases s.len() - i,
{
    if i < 0 || i >= s.len() {
        s.len() as int
    } else if !is_ws(s[i]) {
        i
    } else {
        skip_ws(s, i + 1)
    }
}

/// End of `s.take(j)` without its trailing white space.
pub open spec fn trim_end_at(s: Seq<char>, j: int) -> int
    decreases j,
{
    if j <= 0 || j > s.len() {
        0
    } else if !is_ws(s[j - 1]) {
        j
    } else {
        trim_end_at(s, j - 1)
    }
}

/// `s` without leading and trailing white space.
pub open spec fn trim(s: Seq<char>) -> Seq<char> {
    let a = skip_ws(s, 0);
    let b = trim_end_at(s, s.len() as int);
    if a < b {
        s.subrange(a, b)
    } else {
        seq![]
    }
}

/// Index of the first `c` in `s` from `i` on (the length when none).
pub open spec fn find_char(s: Seq<char>, c: char, i: int) -> int
    decreases s.len() - i,
{
    if i < 0 || i >= s.len() {
        s.len() as int
    } else if s[i] == c {
        i
    } else {
        find_char(s, c, i + 1)
    }
}

/// Index of the first `": "` in `s` from `i` on (the length when none).
pub open spec fn find_sep(s: Seq<char>, i: int) -> int
    decreases s.len() - i,
{
    if i < 0 || i + 1 >= s.len() {
        s.len() as int
    } else if s[i] == ':' && s[i + 1] == ' ' {
        i
    } else {
        find_sep(s, i + 1)
    }
}

/// An Audio Unit as characters.
pub struct AuSpec {
    pub ty: u32,
    pub subtype: u32,
    pub manufacturer: u32,
    pub name: Seq<char>,
    pub manufacturer_name: Seq<char>,
}

pub open spec fn au_view(a: AuPlugin) -> AuSpec {
    AuSpec {
        ty: a.ty,
        subtype: a.subtype,
        manufacturer: a.manufacturer,
        name: a.name@,
        manufacturer_name: a.manufacturer_name@,
    }
}

/// What follows the three codes of the trimmed line `t`, the third ending
/// at `b2`: the rest of the line trimmed, without the lone `-` that
/// `auval` puts between the codes and the names.
pub open spec fn listing_tail(t: Seq<char>, b2: int) -> Seq<char> {
    let r = trim(t.subrange(b2, t.len() as int));
    if r.len() >= 1 && r[0] == '-' && (r.len() == 1 || is_ws(r[1])) {
        trim(r.subrange(1, r.len() as int))
    } else {
        r
    }
}

/// The component a line of `auval -a` lists, if any: after trimming, a
/// line that is not empty and does not start with `--` lists one when its
/// first three white-space separated fields are four-character codes and
/// more follows. What follows the codes (see `listing_tail`) reads
/// `manufacturer: name`, or is the name alone; so
/// `aumu  NIMX  -NI-  -  Native Instruments: Massive X` lists Massive X by
/// Native Instruments.
pub open spec fn auval_line(l: Seq<char>) -> Option<AuSpec> {
    let t = trim(l);
    if t.len() == 0 || (t.len() >= 2 && t[0] == '-' && t[1] == '-') {
        None
    } else {
        let a0 = skip_ws(t, 0);
        let b0 = find_ws(t, a0);
        let a1 = skip_ws(t, b0);
        let b1 = find_ws(t, a1);
        let a2 = skip_ws(t, b1);
        let b2 = find_ws(t, a2);
        let a3 = skip_ws(t, b2);
        if a3 >= t.len() {
            None
        } else {
            match (
                fourcc_of(vstd::utf8::encode_utf8(t.subrange(a0, b0))),
                fourcc_of(vstd::utf8::encode_utf8(t.subrange(a1, b1))),
                fourcc_of(vstd::utf8::encode_utf8(t.subrange(a2, b2))),
            ) {
                (Some(ty), Some(subtype), Some(manufacturer)) => {
                    let rest = listing_tail(t, b2);
                    let k = find_sep(rest, 0);
                    if k < rest.len() {
                        Some(
                            AuSpec {
                                ty,
                                subtype,
                                manufacturer,
                                name: trim(rest.subrange(k + 2, rest.len() as int)),
                                manufacturer_name: trim(rest.take(k)),
                            },
                        )
                    } else {
                        Some(AuSpec { ty, subtype, manufacturer, name: trim(rest), manufacturer_name: seq![] })
                    }
                },
                _ => None,
            }
        }
    }
}

/// The components listed by the lines of `t` from index `s` on.
pub open spec fn auval_from(t: Seq<char>, s: int) -> Seq<AuSpec>
    decreases t.len() + 1 - s,
{
    if s < 0 || s > t.len() {
        seq![]
    } else {
        let e = find_char(t, '\n', s);
        proof {
            lemma_find_char(t, '\n', s);
        }
        (match auval_line(t.subrange(s, e)) {
            Some(a) => seq![a],
            None => seq![],
        }) + auval_from(t, e + 1)
    }
}

/// `find_char` stays within `i..=len`.
pub proof fn lemma_find_char(s: Seq<char>, c: char, i: int)
    requires
        0 <= i <= s.len(),
    ensures
        i <= find_char(s, c, i) <= s.len(),
    decreases s.len() - i,
{
    if i < s.len() && s[i] != c {
        lemma_find_char(s, c, i + 1);
    }
}

proof fn lemma_find_sep(s: Seq<char>, i: int)
    requires
        0 <= i <= s.len(),
    ensures
        find_sep(s, i) == s.len() || (i <= find_sep(s, i) && find_sep(s, i) + 1 < s.len()),
    decreases s.len() - i,
{
    if i + 1 < s.len() && !(s[i] == ':' && s[i + 1] == ' ') {
        lemma_find_sep(s, i + 1);
    }
}

fn is_ws_char(c: char) -> (r: bool)
    ensures
        r == is_ws(c),
{
    ('\t' <= c && c <= '\r') || c == ' ' || c == '\u{85}' || c == '\u{a0}' || c == '\u{1680}' || (
    '\u{2000}' <= c && c <= '\u{200a}') || c == '\u{2028}' || c == '\u{2029}' || c == '\u{202f}'
        || c == '\u{205f}' || c == '\u{3000}'
}

proof fn lemma_find_ws(s: Seq<char>, i: int)
    requires
        0 <= i <= s.len(),
    ensures
        i <= find_ws(s, i) <= s.len(),
    decreases s.len() - i,
{
    if i < s.len() && !is_ws(s[i]) {
        lemma_find_ws(s, i + 1);
    }
}

proof fn lemma_skip_ws(s: Seq<char>, i: int)
    requires
        0 <= i <= s.len(),
    ensures
        i <= skip_ws(s, i) <= s.len(),
    decreases s.len() - i,
{
    if i < s.len() && is_ws(s[i]) {
        lemma_skip_ws(s, i + 1);
    }
}

fn find_ws_in(s: &str, i: usize) -> (k: usize)
    requires
        i <= s@.len(),
    ensures
        k == find_ws(s@, i as int),
        i <= k <= s@.len(),
{
    let n = s.unicode_len();
    let mut k = i;
    proof {
        lemma_find_ws(s@, i as int);
    }
    while k < n && !is_ws_char(s.get_char(k))
        invariant
            n == s@.len(),
            i <= k <= n,
            find_ws(s@, k as int) == find_ws(s@, i as int),
        decreases n - k,
    {
        k = k + 1;
    }
    k
}

fn skip_ws_in(s: &str, i: usize) -> (k: usize)
    requires
        i <= s@.len(),
    ensures
        k == skip_ws(s@, i as int),
        i <= k <= s@.len(),
{
    let n = s.unicode_len();
    let mut k = i;
    proof {
        lemma_skip_ws(s@, i as int);
    }
    while k < n && is_ws_char(s.get_char(k))
        invariant
            n == s@.len(),
            i <= k <= n,
            skip_ws(s@, k as int) == skip_ws(s@, i as int),
        decreases n - k,
    {
        k = k + 1;
    }
    k
}

fn trimmed(s: &str) -> (t: &str)
    ensures
        t@ == trim(s@),
{
    let n = s.unicode_len();
    let a = skip_ws_in(s, 0);
    let mut b = n;
    while b > 0 && is_ws_char(s.get_char(b - 1))
        invariant
            n == s@.len(),
            b <= n,
            trim_end_at(s@, b as int) == trim_end_at(s@, n as int),
        decreases b,
    {
        b = b - 1;
    }
    assert(b == trim_end_at(s@, n as int));
    proof {
        reveal_strlit("");
    }
    if a < b {
        s.substring_char(a, b)
    } else {
        ""
    }
}

fn find_char_in(s: &str, c: char, i: usize) -> (k: usize)
    requires
        i <= s@.len(),
    ensures
        k == find_char(s@, c, i as int),
        i <= k <= s@.len(),
{
    let n = s.unicode_len();
    let mut k = i;
    while k < n && s.get_char(k) != c
        invariant
            n == s@.len(),
            i <= k <= n,
            find_char(s@, c, k as int) == find_char(s@, c, i as int),
        decreases n - k,
    {
        k = k + 1;
    }
    k
}

fn find_sep_in(s: &str) -> (k: usize)
    ensures
        k == find_sep(s@, 0),
        k <= s@.len(),
{
    let n = s.unicode_len();
    let mut k: usize = 0;
    while n > 0 && k < n - 1 && !(s.get_char(k) == ':' && s.get_char(k + 1) == ' ')
        invariant
            n == s@.len(),
            k <= n,
            find_sep(s@, k as int) == find_sep(s@, 0),
        decreases n - k,
    {
        k = k + 1;
    }
    if n > 0 && k < n - 1 {
        k
    } else {
        n
    }
}

fn parse_line(l: &str) -> (r: Option<AuPlugin>)
    ensures
        match auval_line(l@) {
            Some(a) => r matches Some(p) && au_view(p) == a,
            None => r is None,
        },
{
    let t = trimmed(l);
    let n = t.unicode_len();
    if n == 0 || (n >= 2 && t.get_char(0) == '-' && t.get_char(1) == '-') {
        return None;
    }
    let a0 = skip_ws_in(t, 0);
    let b0 = find_ws_in(t, a0);
    let a1 = skip_ws_in(t, b0);
    let b1 = find_ws_in(t, a1);
    let a2 = skip_ws_in(t, b1);
    let b2 = find_ws_in(t, a2);
    let a3 = skip_ws_in(t, b2);
    if a3 >= n {
        return None;
    }
    let ty = fourcc(t.substring_char(a0, b0));
    let subtype = fourcc(t.substring_char(a1, b1));
    let manufacturer = fourcc(t.substring_char(a2, b2));
    match (ty, subtype, manufacturer) {
        (Some(ty), Some(subtype), Some(manufacturer)) => {
            let r = trimmed(t.substring_char(b2, n));
            let rl = r.unicode_len();
            let rest = if rl >= 1 && r.get_char(0) == '-' && (rl == 1 || is_ws_char(r.get_char(1))) {
                trimmed(r.substring_char(1, rl))
            } else {
                r
            };
            let k = find_sep_in(rest);
            let m = rest.unicode_len();
            proof {
                lemma_find_sep(rest@, 0);
                reveal_strlit("");
            }
            if k < m {
                let manufacturer_name = trimmed(rest.substring_char(0, k)).to_string();
                let name = trimmed(rest.substring_char(k + 2, m)).to_string();
                Some(AuPlugin { ty, subtype, manufacturer, name, manufacturer_name })
            } else {
                let name = trimmed(rest).to_string();
                Some(AuPlugin { ty, subtype, manufacturer, name, manufacturer_name: String::new() })
            }
        },
        _ => None,
    }
}

/// The Audio Units listed by `auval -a`, in order.
pub fn parse_auval(text: &str) -> (v: Vec<AuPlugin>)
    ensures
        v@.map_values(|a: AuPlugin| au_view(a)) == auval_from(text@, 0),
{
    let n = text.unicode_len();
    let mut out: Vec<AuPlugin> = Vec::new();
    let mut s: usize = 0;
    loop
        invariant_except_break
            n == text@.len(),
            s <= n,
            out@.map_values(|a: AuPlugin| au_view(a)) + auval_from(text@, s as int) == auval_from(
                text@,
                0,
            ),
        ensures
            out@.map_values(|a: AuPlugin| au_view(a)) == auval_from(text@, 0),
        decreases n - s,
    {
        let e = find_char_in(text, '\n', s);
        let line = text.substring_char(s, e);
        let ghost before = out@.map_values(|a: AuPlugin| au_view(a));
        match parse_line(line) {
            Some(p) => {
                out.push(p);
                assert(out@.map_values(|a: AuPlugin| au_view(a)) =~= before.push(au_view(p)));
            },
            None => {},
        }
        assert(out@.map_values(|a: AuPlugin| au_view(a)) + auval_from(text@, e + 1) =~= before
            + auval_from(text@, s as int));
        if e >= n {
            assert(auval_from(text@, e + 1) =~= seq![]);
            assert(out@.map_values(|a: AuPlugin| au_view(a)) + seq![] =~= out@.map_values(
                |a: AuPlugin| au_view(a),
            ));
            break;
        }
        s = e + 1;
    }
    out
}

} // verus!
