//! RIFF container layout of `.nksf` files.
//!
//! An NKSF file is a RIFF container of form type `NIKS`. Its sub-chunks
//! `NISI` (summary), `PLID` (plugin id) and `NICA` (controller assignments)
//! hold MessagePack; `PCHK` is the opaque plugin state, of which only the
//! offset and length are kept. Chunks are padded to even length; other
//! chunk ids are skipped.
use vstd::prelude::*;
use crate::nks::plid::NksPluginId;

verus! {

/// Errors of the container walk.
#[derive(Debug, Clone, Copy, PartialEq, Eq)]
pub enum NksError {
    /// The data ends inside a header field or inside a metadata chunk.
    Truncated,
    /// Not a RIFF container of form type `NIKS`.
    NotNks,
    /// A required chunk (`NISI` or `PLID`) is absent.
    MissingChunk(&'static str),
}

/// The user-facing text of a framing error.
pub open spec fn nks_error_text(e: NksError) -> Seq<char> {
    match e {
        NksError::Truncated => "riff error: truncated chunk"@,
        NksError::NotNks => "not an NKS file: missing NIKS RIFF header"@,
        NksError::MissingChunk(c) => "required chunk missing: "@ + c@,
    }
}

impl NksError {
    pub fn message(&self) -> (m: String)
        ensures
            m@ == nks_error_text(*self),
    {
        proof {
            reveal_strlit("riff error: truncated chunk");
            reveal_strlit("not an NKS file: missing NIKS RIFF header");
            reveal_strlit("required chunk missing: ");
        }
        match self {
            NksError::Truncated => String::from_str("riff error: truncated chunk"),
            NksError::NotNks => String::from_str("not an NKS file: missing NIKS RIFF header"),
            NksError::MissingChunk(c) => {
                let mut m = String::from_str("required chunk missing: ");
                m.append(c);
                m
            },
        }
    }
}

/// `NICA` chunk: controller assignments, kept as raw MessagePack.
#[derive(Debug, Clone)]
pub struct NksController {
    pub raw: Vec<u8>,
}

/// `NISI` chunk: summary metadata. Every field is optional.
#[derive(Debug, Clone, Default)]
pub struct NksSummary {
    pub author: Option<String>,
    pub vendor: Option<String>,
    pub comment: Option<String>,
    pub name: Option<String>,
    pub bankchain: Option<Vec<String>>,
    pub types: Option<Vec<Vec<String>>>,
    /// Mode/character tags (`modes`, or `characters` in NKS v2).
    pub modes: Option<Vec<String>>,
    pub device_type: Option<String>,
    pub uuid: Option<String>,
}

/// Metadata-only view of a `.nksf` file; the plugin state stays on disk at
/// `pchk_offset .. pchk_offset + pchk_len`.
#[derive(Debug, Clone)]
pub struct NksFile {
    pub path: String,
    pub summary: NksSummary,
    pub plugin: NksPluginId,
    pub controller: Option<NksController>,
    pub pchk_offset: u64,
    pub pchk_len: u64,
}

/// One sub-chunk: its id, the offset of its data and the data length.
#[derive(Debug, Clone, Copy, PartialEq, Eq)]
pub struct Chunk {
    pub id: [u8; 4],
    pub offset: u64,
    pub len: u64,
}

/// Chunk ids of interest.
pub open spec fn tag(a: u8, b: u8, c: u8, d: u8) -> Seq<u8> {
    seq![a, b, c, d]
}

pub open spec fn tag_riff() -> Seq<u8> {
    tag(0x52, 0x49, 0x46, 0x46)
}

pub open spec fn tag_niks() -> Seq<u8> {
    tag(0x4e, 0x49, 0x4b, 0x53)
}

pub open spec fn tag_nisi() -> Seq<u8> {
    tag(0x4e, 0x49, 0x53, 0x49)
}

pub open spec fn tag_plid() -> Seq<u8> {
    tag(0x50, 0x4c, 0x49, 0x44)
}

pub open spec fn tag_nica() -> Seq<u8> {
    tag(0x4e, 0x49, 0x43, 0x41)
}

pub open spec fn tag_pchk() -> Seq<u8> {
    tag(0x50, 0x43, 0x48, 0x4b)
}

/// Metadata chunks are read whole; other chunks are skipped by seeking.
pub open spec fn is_metadata(id: Seq<u8>) -> bool {
    id == tag_nisi() || id == tag_plid() || id == tag_nica()
}

/// Little-endian 32-bit value at `off`.
pub open spec fn le32(b: Seq<u8>, off: int) -> int {
    b[off] + 256 * b[off + 1] + 65536 * b[off + 2] + 16777216 * b[off + 3]
}

pub open spec fn walk_measure(b: Seq<u8>, pos: int) -> int {
    if pos <= b.len() {
        b.len() + 1 - pos
    } else {
        0
    }
}

/// The chunks found from `pos` on and how the walk ended. A walk ends
/// cleanly when fewer than four bytes are left for a chunk id; it fails when
/// the length field is cut short or a metadata chunk's data runs past the
/// end. Skipping past the end is not an error: the next id read ends the
/// walk.
pub open spec fn walk_from(b: Seq<u8>, pos: int) -> (Seq<Chunk>, Result<(), NksError>)
    decreases walk_measure(b, pos),
{
    if pos < 0 || pos + 4 > b.len() {
        (seq![], Ok(()))
    } else if pos + 8 > b.len() {
        (seq![], Err(NksError::Truncated))
    } else {
        let id = b.subrange(pos, pos + 4);
        let len = le32(b, pos + 4);
        let start = pos + 8;
        if is_metadata(id) && start + len > b.len() {
            (seq![], Err(NksError::Truncated))
        } else {
            let next = start + len + len % 2;
            let (rest, end) = walk_from(b, next);
            (
                seq![Chunk { id: [b[pos], b[pos + 1], b[pos + 2], b[pos + 3]], offset: start as u64, len: len as u64 }]
                    + rest,
                end,
            )
        }
    }
}

/// The chunk walk of a whole file: the `RIFF` header, its length, the
/// `NIKS` form type, then the sub-chunks from byte 12.
pub open spec fn walk_spec(b: Seq<u8>) -> (Seq<Chunk>, Result<(), NksError>) {
    if b.len() < 4 {
        (seq![], Err(NksError::Truncated))
    } else if b.subrange(0, 4) != tag_riff() {
        (seq![], Err(NksError::NotNks))
    } else if b.len() < 12 {
        (seq![], Err(NksError::Truncated))
    } else if b.subrange(8, 12) != tag_niks() {
        (seq![], Err(NksError::NotNks))
    } else {
        walk_from(b, 12)
    }
}

/// Result of walking the chunks of an NKSF file held in `bytes`.
#[derive(Debug)]
pub struct RiffWalk {
    /// The chunks in file order.
    pub chunks: Vec<Chunk>,
    /// How the walk ended.
    pub end: Result<(), NksError>,
}

fn read_le32(b: &[u8], off: usize) -> (v: u64)
    requires
        off + 4 <= b@.len(),
    ensures
        v == le32(b@, off as int),
{
    (b[off] as u64) + 256 * (b[off + 1] as u64) + 65536 * (b[off + 2] as u64) + 16777216 * (b[off
        + 3] as u64)
}

fn tag_at(b: &[u8], off: usize, t0: u8, t1: u8, t2: u8, t3: u8) -> (eq: bool)
    requires
        off + 4 <= b@.len(),
    ensures
        eq == (b@.subrange(off as int, off + 4) == tag(t0, t1, t2, t3)),
{
    let eq = b[off] == t0 && b[off + 1] == t1 && b[off + 2] == t2 && b[off + 3] == t3;
    proof {
        let s = b@.subrange(off as int, off + 4);
        if eq {
            assert(s =~= tag(t0, t1, t2, t3));
        } else if s == tag(t0, t1, t2, t3) {
            assert(s[0] == t0 && s[1] == t1 && s[2] == t2 && s[3] == t3);
        }
    }
    eq
}

/// Walks the chunks of an NKSF file.
pub fn walk_niks(bytes: &[u8]) -> (w: RiffWalk)
    requires
        bytes@.len() <= isize::MAX,
    ensures
        (w.chunks@, w.end) == walk_spec(bytes@),
{
    if bytes.len() < 4 {
        return RiffWalk { chunks: Vec::new(), end: Err(NksError::Truncated) };
    }
    if !tag_at(bytes, 0, 0x52, 0x49, 0x46, 0x46) {
        return RiffWalk { chunks: Vec::new(), end: Err(NksError::NotNks) };
    }
    if bytes.len() < 12 {
        return RiffWalk { chunks: Vec::new(), end: Err(NksError::Truncated) };
    }
    if !tag_at(bytes, 8, 0x4e, 0x49, 0x4b, 0x53) {
        return RiffWalk { chunks: Vec::new(), end: Err(NksError::NotNks) };
    }
    let n = bytes.len() as u64;
    let mut chunks: Vec<Chunk> = Vec::new();
    let mut pos: u64 = 12;
    let ghost total = walk_from(bytes@, 12);
    loop
        invariant
            n == bytes@.len(),
            n <= isize::MAX,
            total == walk_spec(bytes@),
            pos >= 12,
            pos <= n + 0x2_0000_0000,
            (chunks@ + walk_from(bytes@, pos as int).0, walk_from(bytes@, pos as int).1) == total,
        decreases walk_measure(bytes@, pos as int),
    {
        if pos + 4 > n {
            assert(chunks@ + walk_from(bytes@, pos as int).0 =~= chunks@);
            return RiffWalk { chunks, end: Ok(()) };
        }
        if pos + 8 > n {
            assert(chunks@ + walk_from(bytes@, pos as int).0 =~= chunks@);
            return RiffWalk { chunks, end: Err(NksError::Truncated) };
        }
        let p = pos as usize;
        let len = read_le32(bytes, p + 4);
        let start = pos + 8;
        let meta = tag_at(bytes, p, 0x4e, 0x49, 0x53, 0x49) || tag_at(bytes, p, 0x50, 0x4c, 0x49, 0x44)
            || tag_at(bytes, p, 0x4e, 0x49, 0x43, 0x41);
        if meta && start + len > n {
            assert(chunks@ + walk_from(bytes@, pos as int).0 =~= chunks@);
            return RiffWalk { chunks, end: Err(NksError::Truncated) };
        }
        let c = Chunk { id: [bytes[p], bytes[p + 1], bytes[p + 2], bytes[p + 3]], offset: start, len };
        let ghost old_chunks = chunks@;
        chunks.push(c);
        let next = start + len + len % 2;
        assert(old_chunks + walk_from(bytes@, pos as int).0 =~= chunks@ + walk_from(bytes@, next as int).0);
        pos = next;
    }
}

/// Which chunks an `NksFile` is built from: the last `NISI`, `PLID` and
/// `NICA` chunks and the last `PCHK` (offset and length, `(0, 0)` when
/// absent).
#[derive(Debug, Clone, Copy)]
pub struct NksLayout {
    pub nisi: Chunk,
    pub plid: Chunk,
    pub nica: Option<Chunk>,
    pub pchk_offset: u64,
    pub pchk_len: u64,
}

/// The last chunk among `cs` whose id is `id`.
pub open spec fn last_with(cs: Seq<Chunk>, id: Seq<u8>) -> Option<Chunk>
    decreases cs.len(),
{
    if cs.len() == 0 {
        None
    } else if cs.last().id@ == id {
        Some(cs.last())
    } else {
        last_with(cs.drop_last(), id)
    }
}

/// The layout of a file whose chunk walk gave `cs`: `NISI` then `PLID` are
/// required.
pub open spec fn layout_spec(cs: Seq<Chunk>) -> Result<NksLayout, NksError> {
    match (last_with(cs, tag_nisi()), last_with(cs, tag_plid())) {
        (None, _) => Err(NksError::MissingChunk("NISI")),
        (Some(_), None) => Err(NksError::MissingChunk("PLID")),
        (Some(nisi), Some(plid)) => {
            let pchk = last_with(cs, tag_pchk());
            Ok(
                NksLayout {
                    nisi,
                    plid,
                    nica: last_with(cs, tag_nica()),
                    pchk_offset: match pchk {
                        Some(c) => c.offset,
                        None => 0,
                    },
                    pchk_len: match pchk {
                        Some(c) => c.len,
                        None => 0,
                    },
                },
            )
        },
    }
}

fn id_is(c: &Chunk, t0: u8, t1: u8, t2: u8, t3: u8) -> (eq: bool)
    ensures
        eq == (c.id@ == tag(t0, t1, t2, t3)),
{
    let eq = c.id[0] == t0 && c.id[1] == t1 && c.id[2] == t2 && c.id[3] == t3;
    proof {
        if eq {
            assert(c.id@ =~= tag(t0, t1, t2, t3));
        } else if c.id@ == tag(t0, t1, t2, t3) {
            assert(c.id@[0] == t0 && c.id@[1] == t1 && c.id@[2] == t2 && c.id@[3] == t3);
        }
    }
    eq
}

/// Picks the chunks an `NksFile` is built from.
pub fn layout(chunks: &[Chunk]) -> (r: Result<NksLayout, NksError>)
    ensures
        r == layout_spec(chunks@),
{
    let mut nisi: Option<Chunk> = None;
    let mut plid: Option<Chunk> = None;
    let mut nica: Option<Chunk> = None;
    let mut pchk: Option<Chunk> = None;
    let mut i: usize = 0;
    while i < chunks.len()
        invariant
            i <= chunks@.len(),
            nisi == last_with(chunks@.take(i as int), tag_nisi()),
            plid == last_with(chunks@.take(i as int), tag_plid()),
            nica == last_with(chunks@.take(i as int), tag_nica()),
            pchk == last_with(chunks@.take(i as int), tag_pchk()),
        decreases chunks@.len() - i,
    {
        let c = chunks[i];
        assert(chunks@.take(i + 1).drop_last() == chunks@.take(i as int));
        if id_is(&c, 0x4e, 0x49, 0x53, 0x49) {
            nisi = Some(c);
        } else if id_is(&c, 0x50, 0x4c, 0x49, 0x44) {
            plid = Some(c);
        } else if id_is(&c, 0x4e, 0x49, 0x43, 0x41) {
            nica = Some(c);
        } else if id_is(&c, 0x50, 0x43, 0x48, 0x4b) {
            pchk = Some(c);
        }
        i = i + 1;
    }
    assert(chunks@.take(chunks@.len() as int) == chunks@);
    let nisi = match nisi {
        Some(c) => c,
        None => {
            return Err(NksError::MissingChunk("NISI"));
        },
    };
    let plid = match plid {
        Some(c) => c,
        None => {
            return Err(NksError::MissingChunk("PLID"));
        },
    };
    let (pchk_offset, pchk_len) = match pchk {
        Some(c) => (c.offset, c.len),
        None => (0, 0),
    };
    Ok(NksLayout { nisi, plid, nica, pchk_offset, pchk_len })
}

/// The MessagePack payload of a metadata chunk: its data after the 4-byte
/// version prefix that NKS sub-chunks carry (empty when the data is
/// shorter).
pub open spec fn payload_of(b: Seq<u8>, c: Chunk) -> Seq<u8> {
    if c.len >= 4 {
        b.subrange(c.offset + 4, c.offset + c.len)
    } else {
        seq![]
    }
}

fn copy_range(bytes: &[u8], from: usize, to: usize) -> (v: Vec<u8>)
    requires
        from <= to <= bytes@.len(),
    ensures
        v@ == bytes@.subrange(from as int, to as int),
{
    let mut v: Vec<u8> = Vec::new();
    let mut i = from;
    while i < to
        invariant
            from <= i <= to <= bytes@.len(),
            v@ == bytes@.subrange(from as int, i as int),
        decreases to - i,
    {
        v.push(bytes[i]);
        assert(v@ =~= bytes@.subrange(from as int, i + 1));
        i = i + 1;
    }
    v
}

/// The MessagePack payload of metadata chunk `c` of the file in `bytes`.
pub fn chunk_payload(bytes: &[u8], c: &Chunk) -> (p: Vec<u8>)
    requires
        c.offset + c.len <= bytes@.len(),
    ensures
        p@ == payload_of(bytes@, *c),
{
    let n = bytes.len();
    assert(c.offset + c.len <= n);
    if c.len >= 4 {
        copy_range(bytes, (c.offset + 4) as usize, (c.offset + c.len) as usize)
    } else {
        Vec::new()
    }
}

/// The metadata chunks a walk lists lie inside the file, so their data can
/// be taken from it, and every chunk's data starts inside it.
pub proof fn layout_chunks_inside(b: Seq<u8>)
    ensures
        forall|i: int| 0 <= i < walk_spec(b).0.len() ==> #[trigger] walk_spec(b).0[i].offset <= b.len(),
        forall|i: int|
            0 <= i < walk_spec(b).0.len() && is_metadata(#[trigger] walk_spec(b).0[i].id@) ==> walk_spec(
                b,
            ).0[i].offset + walk_spec(b).0[i].len <= b.len(),
{
    if b.len() >= 12 && b.subrange(0, 4) == tag_riff() && b.subrange(8, 12) == tag_niks() {
        lemma_walk_from_inside(b, 12);
    }
}

proof fn lemma_walk_from_inside(b: Seq<u8>, pos: int)
    ensures
        forall|i: int| 0 <= i < walk_from(b, pos).0.len() ==> #[trigger] walk_from(b, pos).0[i].offset <= b.len(),
        forall|i: int|
            0 <= i < walk_from(b, pos).0.len() && is_metadata(#[trigger] walk_from(b, pos).0[i].id@)
                ==> walk_from(b, pos).0[i].offset + walk_from(b, pos).0[i].len <= b.len(),
    decreases walk_measure(b, pos),
{
    if pos >= 0 && pos + 8 <= b.len() {
        let id = b.subrange(pos, pos + 4);
        let len = le32(b, pos + 4);
        let start = pos + 8;
        if !(is_metadata(id) && start + len > b.len()) {
            let next = start + len + len % 2;
            lemma_walk_from_inside(b, next);
            let c = Chunk { id: [b[pos], b[pos + 1], b[pos + 2], b[pos + 3]], offset: start as u64, len: len as u64 };
            assert(c.id@ =~= id);
            let (rest, end) = walk_from(b, next);
            assert forall|i: int| 0 <= i < walk_from(b, pos).0.len() implies #[trigger] walk_from(b, pos).0[i].offset <= b.len() by {
                if i > 0 {
                    assert(walk_from(b, pos).0[i] == rest[i - 1]);
                }
            }
            assert forall|i: int|
                0 <= i < walk_from(b, pos).0.len() && is_metadata(#[trigger] walk_from(b, pos).0[i].id@)
                    implies walk_from(b, pos).0[i].offset + walk_from(b, pos).0[i].len <= b.len() by {
                if i > 0 {
                    assert(walk_from(b, pos).0[i] == rest[i - 1]);
                }
            }
        }
    }
}

/// The framed metadata of an NKSF file: the MessagePack payloads of its
/// `NISI`, `PLID` and (when present) `NICA` chunks, and where the plugin
/// state of its `PCHK` chunk lies. Every sub-chunk's data starts with a
/// 4-byte version, which none of these include.
#[derive(Debug, Clone)]
pub struct NksFrames {
    pub nisi: Vec<u8>,
    pub plid: Vec<u8>,
    pub nica: Option<Vec<u8>>,
    pub pchk_offset: u64,
    pub pchk_len: u64,
}

proof fn lemma_last_with_in(cs: Seq<Chunk>, id: Seq<u8>)
    ensures
        last_with(cs, id) matches Some(c) ==> c.id@ == id && exists|i: int|
            0 <= i < cs.len() && cs[i] == c,
    decreases cs.len(),
{
    if cs.len() > 0 && cs.last().id@ != id {
        lemma_last_with_in(cs.drop_last(), id);
        if let Some(c) = last_with(cs.drop_last(), id) {
            let i = choose|i: int| 0 <= i < cs.drop_last().len() && cs.drop_last()[i] == c;
            assert(cs[i] == c);
        }
    } else if cs.len() > 0 {
        assert(cs[cs.len() - 1] == cs.last());
    }
}

/// Length of the version prefix within chunk data of `len` bytes.
pub open spec fn prefix_len(len: u64) -> u64 {
    if len >= 4 {
        4
    } else {
        len
    }
}

/// Reads the metadata framing of the NKSF file held in `bytes`: the chunk
/// walk, then the layout, then the payloads of the chunks it names.
pub fn frame_metadata(bytes: &[u8]) -> (r: Result<NksFrames, NksError>)
    requires
        bytes@.len() <= isize::MAX,
    ensures
        match walk_spec(bytes@).1 {
            Err(e) => r == Err::<NksFrames, NksError>(e),
            Ok(()) => match layout_spec(walk_spec(bytes@).0) {
                Err(e) => r == Err::<NksFrames, NksError>(e),
                Ok(l) => r matches Ok(f) && {
                    &&& f.nisi@ == payload_of(bytes@, l.nisi)
                    &&& f.plid@ == payload_of(bytes@, l.plid)
                    &&& match l.nica {
                        Some(c) => f.nica matches Some(d) && d@ == payload_of(bytes@, c),
                        None => f.nica is None,
                    }
                    &&& f.pchk_offset == l.pchk_offset + prefix_len(l.pchk_len)
                    &&& f.pchk_len == l.pchk_len - prefix_len(l.pchk_len)
                },
            },
        },
{
    let w = walk_niks(bytes);
    match w.end {
        Err(e) => {
            return Err(e);
        },
        Ok(()) => {},
    }
    let l = match layout(w.chunks.as_slice()) {
        Ok(l) => l,
        Err(e) => {
            return Err(e);
        },
    };
    proof {
        layout_chunks_inside(bytes@);
        let cs = w.chunks@;
        lemma_last_with_in(cs, tag_nisi());
        lemma_last_with_in(cs, tag_plid());
        lemma_last_with_in(cs, tag_nica());
        let i = choose|i: int| 0 <= i < cs.len() && cs[i] == l.nisi;
        assert(is_metadata(cs[i].id@));
        let j = choose|j: int| 0 <= j < cs.len() && cs[j] == l.plid;
        assert(is_metadata(cs[j].id@));
        if let Some(c) = l.nica {
            let k = choose|k: int| 0 <= k < cs.len() && cs[k] == c;
            assert(is_metadata(cs[k].id@));
        }
    }
    let nisi = chunk_payload(bytes, &l.nisi);
    let plid = chunk_payload(bytes, &l.plid);
    let nica = match &l.nica {
        Some(c) => Some(chunk_payload(bytes, c)),
        None => None,
    };
    let skip: u64 = if l.pchk_len >= 4 {
        4
    } else {
        l.pchk_len
    };
    proof {
        let cs = w.chunks@;
        lemma_last_with_in(cs, tag_pchk());
        if let Some(c) = last_with(cs, tag_pchk()) {
            let k = choose|k: int| 0 <= k < cs.len() && cs[k] == c;
            assert(cs[k].offset <= bytes@.len());
        }
    }
    Ok(
        NksFrames {
            nisi,
            plid,
            nica,
            pchk_offset: l.pchk_offset + skip,
            pchk_len: l.pchk_len - skip,
        },
    )
}

/// Which decoded chunk a payload comes from.
#[derive(Debug, Clone, Copy, PartialEq, Eq, Structural)]
pub enum MetaKind {
    /// A `NISI` chunk.
    Summary,
    /// A `PLID` chunk.
    Plugin,
}

/// The payloads of the `NISI` and `PLID` chunks among `cs`, chunks of the
/// file `b`, in file order.
pub open spec fn decode_order(b: Seq<u8>, cs: Seq<Chunk>) -> Seq<(MetaKind, Seq<u8>)>
    decreases cs.len(),
{
    if cs.len() == 0 {
        seq![]
    } else {
        decode_order(b, cs.drop_last()) + if cs.last().id@ == tag_nisi() {
            seq![(MetaKind::Summary, payload_of(b, cs.last()))]
        } else if cs.last().id@ == tag_plid() {
            seq![(MetaKind::Plugin, payload_of(b, cs.last()))]
        } else {
            seq![]
        }
    }
}

/// The MessagePack payloads of the `NISI` and `PLID` chunks that the walk
/// of the NKSF file in `bytes` meets, in file order, up to where the walk
/// ends: each is decoded as it is met, so a payload that does not decode
/// fails the read before a later chunk is looked at.
pub fn metadata_in_order(bytes: &[u8]) -> (v: Vec<(MetaKind, Vec<u8>)>)
    requires
        bytes@.len() <= isize::MAX,
    ensures
        v@.map_values(|e: (MetaKind, Vec<u8>)| (e.0, e.1@)) == decode_order(
            bytes@,
            walk_spec(bytes@).0,
        ),
{
    let w = walk_niks(bytes);
    proof {
        layout_chunks_inside(bytes@);
    }
    let mut out: Vec<(MetaKind, Vec<u8>)> = Vec::new();
    let mut i: usize = 0;
    while i < w.chunks.len()
        invariant
            i <= w.chunks@.len(),
            w.chunks@ == walk_spec(bytes@).0,
            forall|j: int|
                0 <= j < w.chunks@.len() && is_metadata(#[trigger] w.chunks@[j].id@) ==> w.chunks@[j].offset
                    + w.chunks@[j].len <= bytes@.len(),
            out@.map_values(|e: (MetaKind, Vec<u8>)| (e.0, e.1@)) == decode_order(
                bytes@,
                w.chunks@.take(i as int),
            ),
        decreases w.chunks@.len() - i,
    {
        let c = w.chunks[i];
        let ghost before = out@.map_values(|e: (MetaKind, Vec<u8>)| (e.0, e.1@));
        assert(w.chunks@.take(i + 1).drop_last() =~= w.chunks@.take(i as int));
        assert(w.chunks@.take(i + 1).last() == c);
        if id_is(&c, 0x4e, 0x49, 0x53, 0x49) {
            out.push((MetaKind::Summary, chunk_payload(bytes, &c)));
            assert(out@.map_values(|e: (MetaKind, Vec<u8>)| (e.0, e.1@)) =~= before.push(
                (MetaKind::Summary, payload_of(bytes@, c)),
            ));
        } else if id_is(&c, 0x50, 0x4c, 0x49, 0x44) {
            out.push((MetaKind::Plugin, chunk_payload(bytes, &c)));
            assert(out@.map_values(|e: (MetaKind, Vec<u8>)| (e.0, e.1@)) =~= before.push(
                (MetaKind::Plugin, payload_of(bytes@, c)),
            ));
        } else {
            assert(out@.map_values(|e: (MetaKind, Vec<u8>)| (e.0, e.1@)) =~= before);
        }
        i = i + 1;
    }
    assert(w.chunks@.take(w.chunks@.len() as int) =~= w.chunks@);
    out
}

} // verus!
