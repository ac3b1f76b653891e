//! MPEG-PS stream demultiplexer for DVD-Video.
//!
//! Takes parsed PES packets and says which bytes of each go to which
//! elementary stream, stripping the DVD-specific framing in front of them:
//! three bytes for AC-3 and DTS, six for LPCM, none for the others. System
//! headers, padding, navigation packs and unknown streams are dropped.
use vstd::prelude::*;
use vstd::slice::slice_subrange;
use crate::mpegps::{
    fault_message, hex_byte, kind_label, kind_of, lemma_prefix_size, lemma_sector_accounted,
    packets_size, pes_sits_in, pes_views, push_hex_byte, scan_sector, sector_of, stream_kind,
    MpegPsError, MpegPsFault, Pes, PesPacket, Sector, StreamKind, SECTOR_SIZE,
};
use crate::text::{
    dec, hex_upper, lemma_dec_injective, lemma_hex_byte_injective, lemma_middle_injective,
    pad_left, push_dec,
};

verus! {

/// Identity of one emitted elementary stream.
#[derive(Debug, Clone, Copy, PartialEq, Eq, Structural, PartialOrd, Ord, Hash)]
pub enum StreamKey {
    /// MPEG-2 video, by its stream id.
    Video(u8),
    /// MPEG-1/2 audio, by its stream id.
    MpegAudio(u8),
    /// AC-3 audio, by substream index.
    Ac3(u8),
    /// DTS audio, by substream index.
    Dts(u8),
    /// LPCM audio, by substream index.
    Lpcm(u8),
    /// DVD subpicture, by substream index.
    Subpicture(u8),
}

/// The key of the streams of a kind; `None` for kinds that are dropped.
pub open spec fn key_of_kind(kind: StreamKind) -> Option<StreamKey> {
    match kind {
        StreamKind::Video(id) => Some(StreamKey::Video(id)),
        StreamKind::MpegAudio(id) => Some(StreamKey::MpegAudio(id)),
        StreamKind::Ac3(n) => Some(StreamKey::Ac3(n)),
        StreamKind::Dts(n) => Some(StreamKey::Dts(n)),
        StreamKind::Lpcm(n) => Some(StreamKey::Lpcm(n)),
        StreamKind::Subpicture(n) => Some(StreamKey::Subpicture(n)),
        _ => None,
    }
}

/// The kind that a key stands for.
pub open spec fn kind_of_key(key: StreamKey) -> StreamKind {
    match key {
        StreamKey::Video(id) => StreamKind::Video(id),
        StreamKey::MpegAudio(id) => StreamKind::MpegAudio(id),
        StreamKey::Ac3(n) => StreamKind::Ac3(n),
        StreamKey::Dts(n) => StreamKind::Dts(n),
        StreamKey::Lpcm(n) => StreamKind::Lpcm(n),
        StreamKey::Subpicture(n) => StreamKind::Subpicture(n),
    }
}

/// The name of a stream's output file.
pub open spec fn key_filename(key: StreamKey) -> Seq<char> {
    match key {
        StreamKey::Video(id) => "video."@ + hex_byte(id) + ".m2v"@,
        StreamKey::MpegAudio(id) => "audio.mpeg."@ + hex_byte(id) + ".mp2"@,
        StreamKey::Ac3(n) => "audio.ac3."@ + dec(n as nat) + ".ac3"@,
        StreamKey::Dts(n) => "audio.dts."@ + dec(n as nat) + ".dts"@,
        StreamKey::Lpcm(n) => "audio.lpcm."@ + dec(n as nat) + ".lpcm"@,
        StreamKey::Subpicture(n) => "subpicture."@ + dec(n as nat) + ".sup"@,
    }
}

/// Payload bytes in front of the elementary stream.
pub open spec fn key_prefix(key: StreamKey) -> int {
    match key {
        StreamKey::Ac3(_) | StreamKey::Dts(_) => 3,
        StreamKey::Lpcm(_) => 6,
        _ => 0,
    }
}

/// The streams whose frames can lose their sync at a cell boundary.
pub open spec fn key_resyncs(key: StreamKey) -> bool {
    key is Ac3 || key is Dts
}

/// Place of a key in the order of streams.
pub open spec fn key_rank(key: StreamKey) -> int {
    match key {
        StreamKey::Video(n) => n as int,
        StreamKey::MpegAudio(n) => 256 + n,
        StreamKey::Ac3(n) => 512 + n,
        StreamKey::Dts(n) => 768 + n,
        StreamKey::Lpcm(n) => 1024 + n,
        StreamKey::Subpicture(n) => 1280 + n,
    }
}

impl StreamKey {
    /// The key of a classified kind; `None` for kinds that are not
    /// elementary streams.
    pub fn from_stream_kind(kind: StreamKind) -> (key: Option<Self>)
        ensures
            key == key_of_kind(kind),
    {
        match kind {
            StreamKind::Video(id) => Some(StreamKey::Video(id)),
            StreamKind::MpegAudio(id) => Some(StreamKey::MpegAudio(id)),
            StreamKind::Ac3(n) => Some(StreamKey::Ac3(n)),
            StreamKind::Dts(n) => Some(StreamKey::Dts(n)),
            StreamKind::Lpcm(n) => Some(StreamKey::Lpcm(n)),
            StreamKind::Subpicture(n) => Some(StreamKey::Subpicture(n)),
            _ => None,
        }
    }

    fn stream_kind(self) -> (kind: StreamKind)
        ensures
            kind == kind_of_key(self),
    {
        match self {
            StreamKey::Video(id) => StreamKind::Video(id),
            StreamKey::MpegAudio(id) => StreamKind::MpegAudio(id),
            StreamKey::Ac3(n) => StreamKind::Ac3(n),
            StreamKey::Dts(n) => StreamKind::Dts(n),
            StreamKey::Lpcm(n) => StreamKind::Lpcm(n),
            StreamKey::Subpicture(n) => StreamKind::Subpicture(n),
        }
    }

    /// Filename for this stream under the output directory.
    pub fn filename(self) -> (s: String)
        ensures
            s@ == key_filename(self),
    {
        let mut out = String::new();
        match self {
            StreamKey::Video(id) => {
                out.append("video.");
                push_hex_byte(&mut out, id);
                out.append(".m2v");
            },
            StreamKey::MpegAudio(id) => {
                out.append("audio.mpeg.");
                push_hex_byte(&mut out, id);
                out.append(".mp2");
            },
            StreamKey::Ac3(n) => {
                out.append("audio.ac3.");
                push_dec(&mut out, n as u64);
                out.append(".ac3");
            },
            StreamKey::Dts(n) => {
                out.append("audio.dts.");
                push_dec(&mut out, n as u64);
                out.append(".dts");
            },
            StreamKey::Lpcm(n) => {
                out.append("audio.lpcm.");
                push_dec(&mut out, n as u64);
                out.append(".lpcm");
            },
            StreamKey::Subpicture(n) => {
                out.append("subpicture.");
                push_dec(&mut out, n as u64);
                out.append(".sup");
            },
        }
        assert(out@ =~= key_filename(self));
        out
    }

    /// Human-readable label, the same as that of the stream's kind.
    pub fn label(self) -> (s: String)
        ensures
            s@ == kind_label(kind_of_key(self)),
    {
        self.stream_kind().label()
    }

    /// How many payload bytes stand before the elementary stream.
    pub fn payload_prefix_strip(self) -> (n: usize)
        ensures
            n == key_prefix(self),
    {
        match self {
            StreamKey::Ac3(_) | StreamKey::Dts(_) => 3,
            StreamKey::Lpcm(_) => 6,
            StreamKey::Subpicture(_) | StreamKey::Video(_) | StreamKey::MpegAudio(_) => 0,
        }
    }

    fn rank(self) -> (r: u64)
        ensures
            r == key_rank(self),
    {
        match self {
            StreamKey::Video(n) => n as u64,
            StreamKey::MpegAudio(n) => 256 + n as u64,
            StreamKey::Ac3(n) => 512 + n as u64,
            StreamKey::Dts(n) => 768 + n as u64,
            StreamKey::Lpcm(n) => 1024 + n as u64,
            StreamKey::Subpicture(n) => 1280 + n as u64,
        }
    }
}

/// Result of the first-bytes check applied to each stream.
#[derive(Debug, Clone, Copy, PartialEq, Eq, Structural)]
pub enum MagicCheck {
    /// The first bytes are the codec's syncword.
    Pass,
    /// The first bytes are something else.
    Fail,
    /// The codec has no syncword to look for.
    Skipped,
    /// Nothing was emitted yet.
    Pending,
}

impl Default for MagicCheck {
    fn default() -> (m: Self)
        ensures
            m == MagicCheck::Pending,
    {
        MagicCheck::Pending
    }
}

/// `b` begins with `start`.
pub open spec fn begins_with(b: Seq<u8>, start: Seq<u8>) -> bool {
    b.len() >= start.len() && b.take(start.len() as int) == start
}

/// The check of a stream's first bytes: a sequence header for video, the
/// syncwords of AC-3 and DTS, eleven set bits for MPEG audio.
pub open spec fn magic_of(key: StreamKey, first: Seq<u8>) -> MagicCheck {
    let good = match key {
        StreamKey::Video(_) => begins_with(first, seq![0x00u8, 0x00u8, 0x01u8, 0xB3u8]),
        StreamKey::Ac3(_) => begins_with(first, seq![0x0Bu8, 0x77u8]),
        StreamKey::Dts(_) => begins_with(first, seq![0x7Fu8, 0xFEu8, 0x80u8, 0x01u8]),
        StreamKey::MpegAudio(_) => first.len() >= 2 && first[0] == 0xFF && first[1] >= 0xE0,
        _ => false,
    };
    if key is Lpcm || key is Subpicture {
        MagicCheck::Skipped
    } else if good {
        MagicCheck::Pass
    } else {
        MagicCheck::Fail
    }
}

fn starts_with(b: &[u8], start: &[u8]) -> (r: bool)
    ensures
        r == begins_with(b@, start@),
{
    if b.len() < start.len() {
        return false;
    }
    let mut i: usize = 0;
    while i < start.len()
        invariant
            i <= start.len() <= b.len(),
            forall|j: int| 0 <= j < i ==> b[j] == start[j],
        decreases start.len() - i,
    {
        if b[i] != start[i] {
            assert(b@.take(start.len() as int)[i as int] != start@[i as int]);
            return false;
        }
        i = i + 1;
    }
    assert(b@.take(start.len() as int) =~= start@);
    true
}

/// Applies the codec's expected first bytes to those of a stream.
pub fn run_magic_check(key: StreamKey, first_bytes: &[u8]) -> (m: MagicCheck)
    ensures
        m == magic_of(key, first_bytes@),
{
    let good = match key {
        StreamKey::Video(_) => {
            let code: [u8; 4] = [0x00, 0x00, 0x01, 0xB3];
            assert(code@ =~= seq![0x00u8, 0x00u8, 0x01u8, 0xB3u8]);
            starts_with(first_bytes, code.as_slice())
        },
        StreamKey::Ac3(_) => {
            let code: [u8; 2] = [0x0B, 0x77];
            assert(code@ =~= seq![0x0Bu8, 0x77u8]);
            starts_with(first_bytes, code.as_slice())
        },
        StreamKey::Dts(_) => {
            let code: [u8; 4] = [0x7F, 0xFE, 0x80, 0x01];
            assert(code@ =~= seq![0x7Fu8, 0xFEu8, 0x80u8, 0x01u8]);
            starts_with(first_bytes, code.as_slice())
        },
        StreamKey::MpegAudio(_) => first_bytes.len() >= 2 && first_bytes[0] == 0xFF
            && first_bytes[1] >= 0xE0,
        StreamKey::Lpcm(_) | StreamKey::Subpicture(_) => {
            return MagicCheck::Skipped;
        },
    };
    if good {
        MagicCheck::Pass
    } else {
        MagicCheck::Fail
    }
}

/// Why a sector could not be demultiplexed.
#[derive(Debug)]
pub enum DemuxError {
    /// The sector is not a well-formed pack.
    Parse(MpegPsError),
}

impl DemuxError {
    /// One line that says what is wrong.
    pub fn message(&self) -> (s: String)
        ensures
            s@ == "mpegps parse error: "@ + fault_message(self->Parse_0@),
    {
        let DemuxError::Parse(e) = self;
        let mut out = String::new();
        out.append("mpegps parse error: ");
        out.append(e.message().as_str());
        assert(out@ =~= "mpegps parse error: "@ + fault_message(self->Parse_0@));
        out
    }
}

/// Statistics of one stream.
#[derive(Debug, Clone, Copy)]
pub struct StreamStats {
    /// Number of PES packets routed to this stream.
    pub pes_count: u64,
    /// Bytes of those packets, headers counted.
    pub pes_bytes: u64,
    /// Bytes that went to the output.
    pub emitted_bytes: u64,
    /// Result of the first-bytes check.
    pub magic_check: MagicCheck,
    /// First bytes that the stream produced, filled with zeros.
    pub first_bytes: [u8; 8],
    /// Whether `first_bytes` has been filled in.
    pub first_bytes_set: bool,
}

impl Default for StreamStats {
    fn default() -> (s: Self)
        ensures
            s.pes_count == 0,
            s.pes_bytes == 0,
            s.emitted_bytes == 0,
            s.magic_check == MagicCheck::Pending,
            s.first_bytes@ == Seq::new(8, |i: int| 0u8),
            !s.first_bytes_set,
    {
        let s = StreamStats {
            pes_count: 0,
            pes_bytes: 0,
            emitted_bytes: 0,
            magic_check: MagicCheck::Pending,
            first_bytes: [0u8;8],
            first_bytes_set: false,
        };
        assert(s.first_bytes@ =~= Seq::new(8, |i: int| 0u8));
        s
    }
}

/// One stream of the demuxer.
#[derive(Debug, Clone, Copy)]
pub struct StreamEntry {
    pub key: StreamKey,
    pub stats: StreamStats,
    /// The next packet must be entered at its first whole frame.
    pub resync_pending: bool,
}

/// [`StreamEntry`] over mathematical values.
pub struct StreamRecord {
    pub pes_count: nat,
    pub pes_bytes: nat,
    pub emitted_bytes: nat,
    pub magic_check: MagicCheck,
    pub first_bytes: Seq<u8>,
    pub first_bytes_set: bool,
    pub resync_pending: bool,
}

impl View for StreamEntry {
    type V = StreamRecord;

    open spec fn view(&self) -> StreamRecord {
        StreamRecord {
            pes_count: self.stats.pes_count as nat,
            pes_bytes: self.stats.pes_bytes as nat,
            emitted_bytes: self.stats.emitted_bytes as nat,
            magic_check: self.stats.magic_check,
            first_bytes: self.stats.first_bytes@,
            first_bytes_set: self.stats.first_bytes_set,
            resync_pending: self.resync_pending,
        }
    }
}

/// A stream of which nothing was seen.
pub open spec fn fresh_record() -> StreamRecord {
    StreamRecord {
        pes_count: 0,
        pes_bytes: 0,
        emitted_bytes: 0,
        magic_check: MagicCheck::Pending,
        first_bytes: Seq::new(8, |i: int| 0u8),
        first_bytes_set: false,
        resync_pending: false,
    }
}

/// `v` is sorted by key, without repetition.
pub open spec fn entries_sorted(v: Seq<StreamEntry>) -> bool {
    forall|i: int, j: int|
        0 <= i < j < v.len() ==> key_rank(#[trigger] v[i].key) < key_rank(#[trigger] v[j].key)
}

/// `key` stands in `v` at `i`.
pub open spec fn entry_at(v: Seq<StreamEntry>, key: StreamKey, i: int) -> bool {
    0 <= i < v.len() && v[i].key == key
}

/// The streams of `v` by their keys.
pub open spec fn entries_map(v: Seq<StreamEntry>) -> Map<StreamKey, StreamRecord> {
    Map::new(
        |key: StreamKey| exists|i: int| entry_at(v, key, i),
        |key: StreamKey| v[choose|i: int| entry_at(v, key, i)]@,
    )
}

proof fn lemma_rank_injective(a: StreamKey, b: StreamKey)
    requires
        key_rank(a) == key_rank(b),
    ensures
        a == b,
{
}

proof fn lemma_entry(v: Seq<StreamEntry>, i: int)
    requires
        entries_sorted(v),
        0 <= i < v.len(),
    ensures
        entries_map(v).contains_key(v[i].key),
        entries_map(v)[v[i].key] == v[i]@,
{
    let key = v[i].key;
    assert(entry_at(v, key, i));
    let j = choose|j: int| entry_at(v, key, j);
    assert(entry_at(v, key, j));
    assert(i == j) by {
        if i < j {
            assert(key_rank(v[i].key) < key_rank(v[j].key));
        } else if j < i {
            assert(key_rank(v[j].key) < key_rank(v[i].key));
        }
    }
}

proof fn lemma_entries_update(v: Seq<StreamEntry>, i: int, e: StreamEntry)
    requires
        entries_sorted(v),
        0 <= i < v.len(),
        v[i].key == e.key,
    ensures
        entries_sorted(v.update(i, e)),
        entries_map(v.update(i, e)) == entries_map(v).insert(e.key, e@),
{
    let w = v.update(i, e);
    assert forall|a: int, b: int| 0 <= a < b < w.len() implies key_rank(#[trigger] w[a].key)
        < key_rank(#[trigger] w[b].key) by {
        assert(w[a].key == v[a].key && w[b].key == v[b].key);
    }
    let m = entries_map(w);
    let n = entries_map(v).insert(e.key, e@);
    lemma_entry(w, i);
    assert forall|key: StreamKey| m.contains_key(key) <==> n.contains_key(key) by {
        if m.contains_key(key) {
            let j = choose|j: int| entry_at(w, key, j);
            assert(entry_at(v, key, j));
        }
        if n.contains_key(key) && key != e.key {
            let j = choose|j: int| entry_at(v, key, j);
            assert(entry_at(w, key, j));
        }
    }
    assert forall|key: StreamKey| m.contains_key(key) implies m[key] == n[key] by {
        let j = choose|j: int| entry_at(w, key, j);
        lemma_entry(w, j);
        lemma_entry(v, j);
    }
    assert(m =~= n);
}

proof fn lemma_entries_insert(v: Seq<StreamEntry>, i: int, e: StreamEntry)
    requires
        entries_sorted(v),
        0 <= i <= v.len(),
        forall|j: int| 0 <= j < i ==> key_rank(#[trigger] v[j].key) < key_rank(e.key),
        forall|j: int| i <= j < v.len() ==> key_rank(e.key) < key_rank(#[trigger] v[j].key),
    ensures
        entries_sorted(v.insert(i, e)),
        entries_map(v.insert(i, e)) == entries_map(v).insert(e.key, e@),
        !entries_map(v).contains_key(e.key),
{
    let w = v.insert(i, e);
    assert forall|a: int, b: int| 0 <= a < b < w.len() implies key_rank(#[trigger] w[a].key)
        < key_rank(#[trigger] w[b].key) by {
        let va = if a < i {
            a
        } else {
            a - 1
        };
        let vb = if b < i {
            b
        } else {
            b - 1
        };
        if a != i {
            assert(w[a] == v[va]);
        }
        if b != i {
            assert(w[b] == v[vb]);
        }
    }
    let m = entries_map(w);
    let n = entries_map(v).insert(e.key, e@);
    assert(w[i] == e);
    lemma_entry(w, i);
    assert forall|key: StreamKey| m.contains_key(key) <==> n.contains_key(key) by {
        if m.contains_key(key) && key != e.key {
            let j = choose|j: int| entry_at(w, key, j);
            let k = if j < i {
                j
            } else {
                j - 1
            };
            assert(entry_at(v, key, k));
        }
        if n.contains_key(key) && key != e.key {
            let j = choose|j: int| entry_at(v, key, j);
            let k = if j < i {
                j
            } else {
                j + 1
            };
            assert(w[k] == v[j]);
            assert(entry_at(w, key, k));
        }
    }
    assert forall|key: StreamKey| m.contains_key(key) implies m[key] == n[key] by {
        let j = choose|j: int| entry_at(w, key, j);
        lemma_entry(w, j);
        if key != e.key {
            let k = if j < i {
                j
            } else {
                j - 1
            };
            assert(w[j] == v[k]);
            lemma_entry(v, k);
        }
    }
    assert(m =~= n);
    if entries_map(v).contains_key(e.key) {
        let j = choose|j: int| entry_at(v, e.key, j);
        assert(key_rank(v[j].key) != key_rank(e.key));
    }
}

/// Bytes that the streams of `v` emitted, taken together.
pub open spec fn streams_emitted(v: Seq<StreamEntry>) -> int
    decreases v.len(),
{
    if v.len() == 0 {
        0
    } else {
        streams_emitted(v.drop_last()) + v.last().stats.emitted_bytes
    }
}

proof fn lemma_emitted_update(v: Seq<StreamEntry>, i: int, e: StreamEntry)
    requires
        0 <= i < v.len(),
    ensures
        streams_emitted(v.update(i, e)) == streams_emitted(v) - v[i].stats.emitted_bytes
            + e.stats.emitted_bytes,
    decreases v.len(),
{
    let w = v.update(i, e);
    if i == v.len() - 1 {
        assert(w.drop_last() =~= v.drop_last());
    } else {
        assert(w.drop_last() =~= v.drop_last().update(i, e));
        lemma_emitted_update(v.drop_last(), i, e);
    }
}

proof fn lemma_emitted_insert(v: Seq<StreamEntry>, i: int, e: StreamEntry)
    requires
        0 <= i <= v.len(),
    ensures
        streams_emitted(v.insert(i, e)) == streams_emitted(v) + e.stats.emitted_bytes,
    decreases v.len(),
{
    let w = v.insert(i, e);
    if i == v.len() {
        assert(w.drop_last() =~= v);
    } else {
        assert(w.drop_last() =~= v.drop_last().insert(i, e));
        lemma_emitted_insert(v.drop_last(), i, e);
    }
}

proof fn lemma_emitted_same(v: Seq<StreamEntry>, w: Seq<StreamEntry>)
    requires
        v.len() == w.len(),
        forall|i: int|
            0 <= i < v.len() ==> #[trigger] w[i].stats.emitted_bytes == v[i].stats.emitted_bytes,
    ensures
        streams_emitted(w) == streams_emitted(v),
    decreases v.len(),
{
    if v.len() > 0 {
        assert(w[v.len() - 1].stats.emitted_bytes == v.last().stats.emitted_bytes);
        lemma_emitted_same(v.drop_last(), w.drop_last());
    }
}

/// State of the demuxer over mathematical values.
pub struct DemuxState {
    pub streams: Map<StreamKey, StreamRecord>,
    pub sectors_processed: nat,
    pub pes_total: nat,
    pub elementary_emitted_bytes: nat,
    pub dropped_pes_bytes: nat,
    pub stripped_header_bytes: nat,
    pub discontinuity_boundaries: nat,
    pub fap_resyncs_applied: nat,
    pub fap_bytes_skipped: nat,
}

/// Nothing processed yet.
pub open spec fn start_demux() -> DemuxState {
    DemuxState {
        streams: Map::empty(),
        sectors_processed: 0,
        pes_total: 0,
        elementary_emitted_bytes: 0,
        dropped_pes_bytes: 0,
        stripped_header_bytes: 0,
        discontinuity_boundaries: 0,
        fap_resyncs_applied: 0,
        fap_bytes_skipped: 0,
    }
}

/// What is known of a stream.
pub open spec fn record_of(m: DemuxState, key: StreamKey) -> StreamRecord {
    if m.streams.contains_key(key) {
        m.streams[key]
    } else {
        fresh_record()
    }
}

/// The stream that a packet belongs to.
pub open spec fn key_of_pes(p: Pes) -> Option<StreamKey> {
    key_of_kind(kind_of(p.stream_id, p.substream_id))
}

/// Offset from the end of the three-byte audio header to the first whole
/// frame of a packet.
pub open spec fn first_access_unit(payload: Seq<u8>) -> int {
    payload[1] * 256 + payload[2]
}

/// How many payload bytes are left out: the prefix, and where a resync is due
/// also the partial frame in front of the first whole one.
pub open spec fn payload_cut(key: StreamKey, rec: StreamRecord, payload: Seq<u8>) -> int {
    let start = key_prefix(key) + (if rec.resync_pending {
        first_access_unit(payload)
    } else {
        0
    });
    if start < payload.len() {
        start
    } else {
        payload.len() as int
    }
}

/// `bytes`, cut or filled with zeros to eight.
pub open spec fn first_eight(bytes: Seq<u8>) -> Seq<u8> {
    Seq::new(
        8,
        |i: int|
            if i < bytes.len() {
                bytes[i]
            } else {
                0u8
            },
    )
}

/// The first eight bytes, or all where there are fewer.
pub open spec fn at_most_eight(bytes: Seq<u8>) -> Seq<u8> {
    if bytes.len() < 8 {
        bytes
    } else {
        bytes.take(8)
    }
}

/// A stream that took one more packet.
pub open spec fn record_counted(rec: StreamRecord, p: Pes) -> StreamRecord {
    StreamRecord {
        pes_count: rec.pes_count + 1,
        pes_bytes: rec.pes_bytes + p.total_size as nat,
        ..rec
    }
}

/// A stream that emitted `bytes`; the check runs on its first bytes.
pub open spec fn record_emitted(key: StreamKey, rec: StreamRecord, bytes: Seq<u8>) -> StreamRecord {
    let first = !rec.first_bytes_set && bytes.len() > 0;
    StreamRecord {
        emitted_bytes: rec.emitted_bytes + bytes.len(),
        magic_check: if first {
            magic_of(key, at_most_eight(bytes))
        } else {
            rec.magic_check
        },
        first_bytes: if first {
            first_eight(bytes)
        } else {
            rec.first_bytes
        },
        first_bytes_set: rec.first_bytes_set || first,
        resync_pending: false,
        ..rec
    }
}

/// A payload too short for its prefix carries nothing and is stripped whole.
pub open spec fn payload_is_short(key: StreamKey, p: Pes) -> bool {
    p.payload.len() <= key_prefix(key)
}

/// The bytes that a packet sends to its stream.
pub open spec fn emitted_of(m: DemuxState, key: StreamKey, p: Pes) -> Seq<u8> {
    if payload_is_short(key, p) {
        Seq::empty()
    } else {
        p.payload.skip(payload_cut(key, record_of(m, key), p.payload))
    }
}

/// The state behind a packet.
pub open spec fn after_pes(m: DemuxState, p: Pes) -> DemuxState {
    match key_of_pes(p) {
        None => DemuxState {
            pes_total: m.pes_total + 1,
            dropped_pes_bytes: m.dropped_pes_bytes + p.total_size as nat,
            ..m
        },
        Some(key) => {
            let rec = record_of(m, key);
            let counted = record_counted(rec, p);
            if payload_is_short(key, p) {
                DemuxState {
                    pes_total: m.pes_total + 1,
                    stripped_header_bytes: m.stripped_header_bytes + (p.header_size
                        + p.payload.len()) as nat,
                    streams: m.streams.insert(key, counted),
                    ..m
                }
            } else {
                let cut = payload_cut(key, rec, p.payload);
                let bytes = emitted_of(m, key, p);
                DemuxState {
                    pes_total: m.pes_total + 1,
                    stripped_header_bytes: m.stripped_header_bytes + (p.header_size + cut) as nat,
                    elementary_emitted_bytes: m.elementary_emitted_bytes + bytes.len(),
                    fap_resyncs_applied: m.fap_resyncs_applied + (if cut > key_prefix(key) {
                        1nat
                    } else {
                        0nat
                    }),
                    fap_bytes_skipped: m.fap_bytes_skipped + (cut - key_prefix(key)) as nat,
                    streams: m.streams.insert(key, record_emitted(key, counted, bytes)),
                    ..m
                }
            }
        },
    }
}

/// What a packet sends out, if anything.
pub open spec fn pes_emission(m: DemuxState, p: Pes) -> Option<(StreamKey, Seq<u8>)> {
    match key_of_pes(p) {
        Some(key) if emitted_of(m, key, p).len() > 0 => Some((key, emitted_of(m, key, p))),
        _ => None,
    }
}

/// A stream table with every AC-3 and DTS stream marked for a resync.
pub open spec fn streams_marked(streams: Map<StreamKey, StreamRecord>) -> Map<
    StreamKey,
    StreamRecord,
> {
    streams.map_entries(
        |key: StreamKey, rec: StreamRecord|
            StreamRecord { resync_pending: rec.resync_pending || key_resyncs(key), ..rec },
    )
}

/// The state once a new cell begins.
pub open spec fn after_begin_cell(m: DemuxState, stc_discontinuity: bool) -> DemuxState {
    if stc_discontinuity {
        DemuxState {
            discontinuity_boundaries: m.discontinuity_boundaries + 1,
            streams: streams_marked(m.streams),
            ..m
        }
    } else {
        m
    }
}

/// Bytes for the file of one stream.
#[derive(Debug, Clone, Copy)]
pub struct StreamChunk<'a> {
    pub key: StreamKey,
    pub bytes: &'a [u8],
}

/// The demultiplexer. It decides what goes where; its caller writes the
/// bytes.
pub struct Demuxer {
    /// The streams seen so far, in the order of their keys.
    pub streams: Vec<StreamEntry>,
    pub sectors_processed: u64,
    pub pes_total: u64,
    pub elementary_emitted_bytes: u64,
    pub dropped_pes_bytes: u64,
    pub stripped_header_bytes: u64,
    pub discontinuity_boundaries: u64,
    pub fap_resyncs_applied: u64,
    pub fap_bytes_skipped: u64,
}

/// Overall summary returned by [`Demuxer::finish`].
#[derive(Debug, Clone)]
pub struct DemuxSummary {
    pub sectors_processed: u64,
    pub pes_total: u64,
    /// Bytes of input, 2048 for each sector.
    pub input_bytes: u64,
    pub elementary_emitted_bytes: u64,
    pub dropped_pes_bytes: u64,
    pub stripped_header_bytes: u64,
    /// Pack headers, 14 bytes for each sector.
    pub pack_header_bytes: u64,
    pub discontinuity_boundaries: u64,
    /// Packets of which a resync dropped bytes. A packet that starts on a frame
    /// is not counted.
    pub fap_resyncs_applied: u64,
    /// Bytes that resyncs dropped, a part of `stripped_header_bytes`.
    pub fap_bytes_skipped: u64,
    /// The streams, in the order of their keys.
    pub streams: Vec<StreamEntry>,
}

impl View for Demuxer {
    type V = DemuxState;

    open spec fn view(&self) -> DemuxState {
        DemuxState {
            streams: entries_map(self.streams@),
            sectors_processed: self.sectors_processed as nat,
            pes_total: self.pes_total as nat,
            elementary_emitted_bytes: self.elementary_emitted_bytes as nat,
            dropped_pes_bytes: self.dropped_pes_bytes as nat,
            stripped_header_bytes: self.stripped_header_bytes as nat,
            discontinuity_boundaries: self.discontinuity_boundaries as nat,
            fap_resyncs_applied: self.fap_resyncs_applied as nat,
            fap_bytes_skipped: self.fap_bytes_skipped as nat,
        }
    }
}

/// A packet whose sizes fit together and its 16-bit length.
pub open spec fn pes_fits(p: Pes) -> bool {
    &&& 0 <= p.header_size
    &&& p.header_size + p.payload.len() == p.total_size
    &&& p.total_size <= 6 + 0xFFFF
}

/// No stream has counted more than the whole.
pub open spec fn entry_bounded(e: StreamEntry, d: Demuxer) -> bool {
    &&& e.stats.pes_count <= d.pes_total
    &&& e.stats.pes_bytes <= d.stripped_header_bytes + d.elementary_emitted_bytes
    &&& e.stats.emitted_bytes <= d.elementary_emitted_bytes
    &&& e.resync_pending ==> key_resyncs(e.key)
}

impl Demuxer {
    /// The streams are in order, they emitted together what was emitted, and no
    /// part has counted more than the whole.
    pub open spec fn wf(&self) -> bool {
        &&& entries_sorted(self.streams@)
        &&& forall|i: int|
            0 <= i < self.streams.len() ==> entry_bounded(#[trigger] self.streams[i], *self)
        &&& streams_emitted(self.streams@) == self.elementary_emitted_bytes
        &&& self.fap_bytes_skipped <= self.stripped_header_bytes
        &&& self.fap_resyncs_applied <= self.pes_total
    }

    /// Bytes of packets accounted for so far.
    pub open spec fn load(&self) -> int {
        self.dropped_pes_bytes + self.stripped_header_bytes + self.elementary_emitted_bytes
    }

    /// A demuxer that has seen nothing.
    pub fn new() -> (d: Self)
        ensures
            d.wf(),
            d@ == start_demux(),
    {
        let d = Demuxer {
            streams: Vec::new(),
            sectors_processed: 0,
            pes_total: 0,
            elementary_emitted_bytes: 0,
            dropped_pes_bytes: 0,
            stripped_header_bytes: 0,
            discontinuity_boundaries: 0,
            fap_resyncs_applied: 0,
            fap_bytes_skipped: 0,
        };
        assert(entries_map(d.streams@) =~= Map::<StreamKey, StreamRecord>::empty()) by {
            assert forall|key: StreamKey| !entries_map(d.streams@).contains_key(key) by {
                assert forall|i: int| !entry_at(d.streams@, key, i) by {}
            }
        }
        d
    }

    /// Whether the counters can take one more sector, and the totals be reported
    /// afterwards.
    pub fn has_room(&self) -> (b: bool)
        ensures
            b == (self.pes_total + 341 <= u64::MAX && self.load() + 2048 <= u64::MAX && (
            self.sectors_processed + 1) * 2048 <= u64::MAX),
    {
        let load: u128 = self.dropped_pes_bytes as u128 + self.stripped_header_bytes as u128
            + self.elementary_emitted_bytes as u128;
        self.pes_total <= u64::MAX - 341 && load + 2048 <= u64::MAX as u128 && (
        self.sectors_processed as u128 + 1) * 2048 <= u64::MAX as u128
    }

    /// Index of a stream, or where it would have to be inserted.
    fn find(&self, key: StreamKey) -> (r: Result<usize, usize>)
        requires
            entries_sorted(self.streams@),
        ensures
            match r {
                Ok(i) => entry_at(self.streams@, key, i as int),
                Err(i) => {
                    &&& i <= self.streams.len()
                    &&& forall|j: int|
                        0 <= j < i ==> key_rank(#[trigger] self.streams[j].key) < key_rank(key)
                    &&& forall|j: int|
                        i <= j < self.streams.len() ==> key_rank(key) < key_rank(
                            #[trigger] self.streams[j].key,
                        )
                },
            },
    {
        let rank: u64 = key.rank();
        let mut i: usize = 0;
        while i < self.streams.len()
            invariant
                i <= self.streams.len(),
                rank == key_rank(key),
                entries_sorted(self.streams@),
                forall|j: int|
                    0 <= j < i ==> key_rank(#[trigger] self.streams[j].key) < key_rank(key),
            decreases self.streams.len() - i,
        {
            let there: u64 = self.streams[i].key.rank();
            if there == rank {
                proof {
                    lemma_rank_injective(self.streams[i as int].key, key);
                }
                return Ok(i);
            }
            if there > rank {
                return Err(i);
            }
            i = i + 1;
        }
        Err(i)
    }

    /// What is known of a stream.
    fn entry_for(&self, key: StreamKey) -> (e: StreamEntry)
        requires
            self.wf(),
        ensures
            e.key == key,
            e@ == record_of(self@, key),
            entry_bounded(e, *self),
    {
        match self.find(key) {
            Ok(i) => {
                proof {
                    lemma_entry(self.streams@, i as int);
                }
                self.streams[i]
            },
            Err(_i) => {
                let e = StreamEntry { key, stats: StreamStats::default(), resync_pending: false };
                proof {
                    lemma_entries_insert(self.streams@, _i as int, e);
                }
                e
            },
        }
    }

    /// Sets what is known of a stream.
    fn put_entry(&mut self, e: StreamEntry)
        requires
            entries_sorted(old(self).streams@),
            forall|i: int|
                0 <= i < old(self).streams.len() ==> entry_bounded(
                    #[trigger] old(self).streams[i],
                    *old(self),
                ),
            entry_bounded(e, *old(self)),
        ensures
            *final(self) == (Demuxer { streams: final(self).streams, ..*old(self) }),
            entries_sorted(final(self).streams@),
            forall|i: int|
                0 <= i < final(self).streams.len() ==> entry_bounded(
                    #[trigger] final(self).streams[i],
                    *final(self),
                ),
            entries_map(final(self).streams@) == entries_map(old(self).streams@).insert(e.key, e@),
            streams_emitted(final(self).streams@) == streams_emitted(old(self).streams@)
                + e.stats.emitted_bytes - record_of(old(self)@, e.key).emitted_bytes,
    {
        match self.find(e.key) {
            Ok(i) => {
                proof {
                    lemma_entry(self.streams@, i as int);
                    lemma_entries_update(self.streams@, i as int, e);
                    lemma_emitted_update(self.streams@, i as int, e);
                }
                self.streams.set(i, e);
            },
            Err(i) => {
                proof {
                    lemma_entries_insert(self.streams@, i as int, e);
                    lemma_emitted_insert(self.streams@, i as int, e);
                }
                self.streams.insert(i, e);
            },
        }
    }

    /// Routes one parsed PES packet. What is returned, if anything, goes to
    /// the file of its stream.
    pub fn process_pes<'a>(&mut self, pes: &PesPacket<'a>) -> (r: Option<StreamChunk<'a>>)
        requires
            old(self).wf(),
            pes_fits(pes@),
            old(self).pes_total < u64::MAX,
            old(self).load() + pes.total_size <= u64::MAX,
        ensures
            final(self).wf(),
            final(self)@ == after_pes(old(self)@, pes@),
            match r {
                Some(c) => pes_emission(old(self)@, pes@) == Some((c.key, c.bytes@)),
                None => pes_emission(old(self)@, pes@) is None,
            },
            final(self).load() == old(self).load() + pes.total_size,
            final(self).pes_total == old(self).pes_total + 1,
            final(self).sectors_processed == old(self).sectors_processed,
            final(self).discontinuity_boundaries == old(self).discontinuity_boundaries,
    {
        let kind = stream_kind(pes.stream_id, pes.substream_id);
        let key = match StreamKey::from_stream_kind(kind) {
            Some(key) => key,
            None => {
                self.pes_total = self.pes_total + 1;
                self.dropped_pes_bytes = self.dropped_pes_bytes + pes.total_size as u64;
                assert(forall|i: int|
                    0 <= i < self.streams.len() ==> entry_bounded(
                        #[trigger] old(self).streams[i],
                        *old(self),
                    ));
                return None;
            },
        };
        let mut entry = self.entry_for(key);
        let ghost rec = entry@;
        assert(forall|i: int|
            0 <= i < self.streams.len() ==> entry_bounded(
                #[trigger] old(self).streams[i],
                *old(self),
            ));
        let prefix: usize = key.payload_prefix_strip();
        let len: usize = pes.payload.len();
        self.pes_total = self.pes_total + 1;
        entry.stats.pes_count = entry.stats.pes_count + 1;
        entry.stats.pes_bytes = entry.stats.pes_bytes + pes.total_size as u64;
        if len <= prefix {
            self.stripped_header_bytes = self.stripped_header_bytes + (pes.header_size
                + len) as u64;
            self.put_entry(entry);
            return None;
        }
        let mut cut: usize = prefix;
        if entry.resync_pending {
            let fap: usize = pes.payload[1] as usize * 256 + pes.payload[2] as usize;
            cut = if prefix + fap < len {
                prefix + fap
            } else {
                len
            };
            if cut > prefix {
                self.fap_resyncs_applied = self.fap_resyncs_applied + 1;
            }
            self.fap_bytes_skipped = self.fap_bytes_skipped + (cut - prefix) as u64;
            entry.resync_pending = false;
        }
        assert(cut == payload_cut(key, rec, pes.payload@));
        self.stripped_header_bytes = self.stripped_header_bytes + (pes.header_size + cut) as u64;
        let bytes = slice_subrange(pes.payload, cut, len);
        assert(bytes@ =~= pes.payload@.skip(cut as int));
        self.elementary_emitted_bytes = self.elementary_emitted_bytes + bytes.len() as u64;
        entry.stats.emitted_bytes = entry.stats.emitted_bytes + bytes.len() as u64;
        if !entry.stats.first_bytes_set && bytes.len() > 0 {
            let n: usize = if bytes.len() < 8 {
                bytes.len()
            } else {
                8
            };
            let first = slice_subrange(bytes, 0, n);
            assert(first@ =~= at_most_eight(bytes@));
            entry.stats.first_bytes = first_bytes_of(bytes);
            entry.stats.first_bytes_set = true;
            entry.stats.magic_check = run_magic_check(key, first);
        }
        assert(entry@ == record_emitted(key, record_counted(rec, pes@), bytes@));
        self.put_entry(entry);
        if bytes.len() > 0 {
            Some(StreamChunk { key, bytes })
        } else {
            None
        }
    }

    /// Says that a new cell starts with the next packet. At an STC
    /// discontinuity every AC-3 and DTS stream seen so far is entered again at
    /// its first whole frame.
    pub fn begin_cell(&mut self, stc_discontinuity: bool)
        requires
            old(self).wf(),
            old(self).discontinuity_boundaries < u64::MAX,
        ensures
            final(self).wf(),
            final(self)@ == after_begin_cell(old(self)@, stc_discontinuity),
            final(self).load() == old(self).load(),
    {
        if !stc_discontinuity {
            return;
        }
        self.discontinuity_boundaries = self.discontinuity_boundaries + 1;
        let ghost before = self.streams@;
        let mut i: usize = 0;
        while i < self.streams.len()
            invariant
                i <= self.streams.len(),
                self.streams.len() == before.len(),
                *self == (Demuxer { streams: self.streams, ..*self }),
                self.sectors_processed == old(self).sectors_processed,
                self.pes_total == old(self).pes_total,
                self.elementary_emitted_bytes == old(self).elementary_emitted_bytes,
                self.dropped_pes_bytes == old(self).dropped_pes_bytes,
                self.stripped_header_bytes == old(self).stripped_header_bytes,
                self.discontinuity_boundaries == old(self).discontinuity_boundaries + 1,
                self.fap_resyncs_applied == old(self).fap_resyncs_applied,
                self.fap_bytes_skipped == old(self).fap_bytes_skipped,
                forall|j: int| 0 <= j < i ==> #[trigger] self.streams[j] == marked(before[j]),
                forall|j: int| i <= j < before.len() ==> #[trigger] self.streams[j] == before[j],
            decreases self.streams.len() - i,
        {
            let mut entry = self.streams[i];
            match entry.key {
                StreamKey::Ac3(_) | StreamKey::Dts(_) => {
                    entry.resync_pending = true;
                },
                _ => {},
            }
            self.streams.set(i, entry);
            i = i + 1;
        }
        proof {
            lemma_entries_marked(before, self.streams@);
            lemma_emitted_same(before, self.streams@);
            assert forall|j: int| 0 <= j < self.streams.len() implies entry_bounded(
                #[trigger] self.streams[j],
                *self,
            ) by {
                assert(entry_bounded(old(self).streams[j], *old(self)));
            }
        }
    }

    /// Whether the next packet of a stream will be entered at its first whole
    /// frame.
    pub fn resync_pending(&self, key: StreamKey) -> (b: bool)
        requires
            self.wf(),
        ensures
            b == record_of(self@, key).resync_pending,
    {
        self.entry_for(key).resync_pending
    }

    /// Parses one 2048-byte sector and routes its PES packets. The chunks that
    /// are returned go to the files of their streams, in this order.
    pub fn process_sector<'a>(&mut self, sector: &'a [u8], label: &str) -> (r: Result<
        Vec<StreamChunk<'a>>,
        DemuxError,
    >)
        requires
            old(self).wf(),
            old(self).pes_total + 341 <= u64::MAX,
            old(self).load() + 2048 <= u64::MAX,
            old(self).sectors_processed < u64::MAX,
        ensures
            final(self).wf(),
            match r {
                Ok(chunks) => {
                    &&& sector_of(sector@) is Ok
                    &&& final(self)@ == after_sector(old(self)@, sector@)
                    &&& chunk_views(chunks@) == emissions(
                        old(self)@,
                        sector_of(sector@)->Ok_0.pes_packets,
                    )
                },
                Err(DemuxError::Parse(e)) => {
                    &&& sector_of(sector@) == Err::<Sector, MpegPsFault>(e@)
                    &&& *final(self) == *old(self)
                },
            },
            final(self).pes_total <= old(self).pes_total + 341,
            final(self).load() <= old(self).load() + 2048,
            final(self).sectors_processed == old(self).sectors_processed + (if r is Ok {
                1int
            } else {
                0
            }),
            final(self).discontinuity_boundaries == old(self).discontinuity_boundaries,
    {
        let contents = match scan_sector(sector, label) {
            Ok(c) => c,
            Err(e) => return Err(DemuxError::Parse(e)),
        };
        let ghost packets = contents@.pes_packets;
        proof {
            lemma_sector_accounted(sector@);
        }
        let mut chunks: Vec<StreamChunk<'a>> = Vec::new();
        let mut i: usize = 0;
        assert(packets.take(0) =~= Seq::<Pes>::empty());
        assert(chunk_views(chunks@) =~= Seq::empty());
        while i < contents.pes_packets.len()
            invariant
                i <= contents.pes_packets.len(),
                packets == pes_views(contents.pes_packets@),
                sector_of(sector@) == Ok::<Sector, MpegPsFault>(contents@),
                packets == contents@.pes_packets,
                self.wf(),
                self.sectors_processed == old(self).sectors_processed,
                old(self).sectors_processed < u64::MAX,
                self.discontinuity_boundaries == old(self).discontinuity_boundaries,
                self@ == after_packets(old(self)@, packets.take(i as int)),
                chunk_views(chunks@) == emissions(old(self)@, packets.take(i as int)),
                old(self).pes_total + 341 <= u64::MAX,
                old(self).load() + 2048 <= u64::MAX,
                self.pes_total == old(self).pes_total + i,
                self.load() == old(self).load() + packets_size(packets.take(i as int)),
                packets_size(packets) <= 2034,
                forall|j: int| 0 <= j < packets.len() ==> pes_sits_in(sector@, #[trigger] packets[j]),
            decreases contents.pes_packets.len() - i,
        {
            let ghost now = packets.take(i as int);
            let ghost next = packets.take(i + 1);
            let pes = contents.pes_packets[i];
            proof {
                assert(next.drop_last() =~= now);
                assert(packets[i as int] == pes@);
                assert(pes_sits_in(sector@, packets[i as int]));
                lemma_prefix_size(sector@, packets, i as int);
                lemma_prefix_size(sector@, packets, i + 1);
                assert(pes@.raw.len() == pes@.total_size);
            }
            let ghost chunks_before = chunks@;
            match self.process_pes(&pes) {
                Some(c) => {
                    chunks.push(c);
                    assert(chunk_views(chunks@) =~= chunk_views(chunks_before).push(
                        (c.key, c.bytes@),
                    ));
                },
                None => {},
            }
            i = i + 1;
        }
        assert(packets.take(i as int) =~= packets);
        proof {
            lemma_prefix_size(sector@, packets, i as int);
        }
        self.sectors_processed = self.sectors_processed + 1;
        assert forall|j: int| 0 <= j < self.streams.len() implies entry_bounded(
            #[trigger] self.streams[j],
            *self,
        ) by {}
        Ok(chunks)
    }

    /// The totals, at the end.
    pub fn finish(self) -> (summary: DemuxSummary)
        requires
            self.sectors_processed * 2048 <= u64::MAX,
        ensures
            summary.sectors_processed == self.sectors_processed,
            summary.pes_total == self.pes_total,
            summary.input_bytes == self.sectors_processed * 2048,
            summary.elementary_emitted_bytes == self.elementary_emitted_bytes,
            summary.dropped_pes_bytes == self.dropped_pes_bytes,
            summary.stripped_header_bytes == self.stripped_header_bytes,
            summary.pack_header_bytes == self.sectors_processed * 14,
            summary.discontinuity_boundaries == self.discontinuity_boundaries,
            summary.fap_resyncs_applied == self.fap_resyncs_applied,
            summary.fap_bytes_skipped == self.fap_bytes_skipped,
            summary.streams == self.streams,
            self.wf() ==> summary.elementary_emitted_bytes == streams_emitted(summary.streams@),
    {
        DemuxSummary {
            sectors_processed: self.sectors_processed,
            pes_total: self.pes_total,
            input_bytes: self.sectors_processed * SECTOR_SIZE as u64,
            elementary_emitted_bytes: self.elementary_emitted_bytes,
            dropped_pes_bytes: self.dropped_pes_bytes,
            stripped_header_bytes: self.stripped_header_bytes,
            pack_header_bytes: self.sectors_processed * 14,
            discontinuity_boundaries: self.discontinuity_boundaries,
            fap_resyncs_applied: self.fap_resyncs_applied,
            fap_bytes_skipped: self.fap_bytes_skipped,
            streams: self.streams,
        }
    }
}

/// An entry behind a discontinuity.
spec fn marked(e: StreamEntry) -> StreamEntry {
    StreamEntry { resync_pending: e.resync_pending || key_resyncs(e.key), ..e }
}

proof fn lemma_entries_marked(v: Seq<StreamEntry>, w: Seq<StreamEntry>)
    requires
        entries_sorted(v),
        v.len() == w.len(),
        forall|j: int| 0 <= j < v.len() ==> #[trigger] w[j] == marked(v[j]),
    ensures
        entries_sorted(w),
        entries_map(w) == streams_marked(entries_map(v)),
{
    assert forall|a: int, b: int| 0 <= a < b < w.len() implies key_rank(#[trigger] w[a].key)
        < key_rank(#[trigger] w[b].key) by {
        assert(w[a].key == v[a].key && w[b].key == v[b].key);
    }
    let m = entries_map(w);
    let n = streams_marked(entries_map(v));
    assert forall|key: StreamKey| m.contains_key(key) <==> n.contains_key(key) by {
        if m.contains_key(key) {
            let j = choose|j: int| entry_at(w, key, j);
            assert(entry_at(v, key, j));
        }
        if n.contains_key(key) {
            let j = choose|j: int| entry_at(v, key, j);
            assert(w[j].key == key);
            assert(entry_at(w, key, j));
        }
    }
    assert forall|key: StreamKey| m.contains_key(key) implies m[key] == n[key] by {
        let j = choose|j: int| entry_at(w, key, j);
        lemma_entry(w, j);
        assert(w[j].key == v[j].key);
        lemma_entry(v, j);
        assert(w[j] == marked(v[j]));
    }
    assert(m =~= n);
}

/// The state behind a run of packets.
pub open spec fn after_packets(m: DemuxState, packets: Seq<Pes>) -> DemuxState
    decreases packets.len(),
{
    if packets.len() == 0 {
        m
    } else {
        after_pes(after_packets(m, packets.drop_last()), packets.last())
    }
}

/// What a run of packets sends out, in order.
pub open spec fn emissions(m: DemuxState, packets: Seq<Pes>) -> Seq<(StreamKey, Seq<u8>)>
    decreases packets.len(),
{
    if packets.len() == 0 {
        Seq::empty()
    } else {
        let before = emissions(m, packets.drop_last());
        match pes_emission(after_packets(m, packets.drop_last()), packets.last()) {
            Some(e) => before.push(e),
            None => before,
        }
    }
}

/// Chunks by key and content.
pub open spec fn chunk_views(chunks: Seq<StreamChunk<'_>>) -> Seq<(StreamKey, Seq<u8>)> {
    chunks.map_values(|c: StreamChunk<'_>| (c.key, c.bytes@))
}

/// The state behind a sector; a sector that cannot be parsed changes nothing.
pub open spec fn after_sector(m: DemuxState, sector: Seq<u8>) -> DemuxState {
    match sector_of(sector) {
        Ok(c) => {
            let after = after_packets(m, c.pes_packets);
            DemuxState { sectors_processed: after.sectors_processed + 1, ..after }
        },
        Err(_) => m,
    }
}

/// The first eight bytes, filled with zeros.
fn first_bytes_of(bytes: &[u8]) -> (first: [u8; 8])
    ensures
        first@ == first_eight(bytes@),
{
    let mut first: [u8; 8] = [0u8;8];
    let mut i: usize = 0;
    while i < 8 && i < bytes.len()
        invariant
            i <= 8,
            i <= bytes.len(),
            first@.len() == 8,
            forall|j: int| 0 <= j < i ==> first@[j] == bytes@[j],
            forall|j: int| i <= j < 8 ==> first@[j] == 0,
        decreases 8 - i,
    {
        first[i] = bytes[i];
        i = i + 1;
    }
    assert(first@ =~= first_eight(bytes@));
    first
}

/// Packet bytes that a state accounts for.
pub open spec fn accounted(m: DemuxState) -> int {
    m.stripped_header_bytes + m.elementary_emitted_bytes + m.dropped_pes_bytes as int
}

/// Every byte of a packet is stripped, emitted or dropped, once.
pub proof fn lemma_packet_accounted(m: DemuxState, p: Pes)
    requires
        pes_fits(p),
    ensures
        accounted(after_pes(m, p)) == accounted(m) + p.total_size,
        after_pes(m, p).sectors_processed == m.sectors_processed,
{
    if let Some(key) = key_of_pes(p) {
        if !payload_is_short(key, p) {
            let cut = payload_cut(key, record_of(m, key), p.payload);
            assert(emitted_of(m, key, p).len() == p.payload.len() - cut);
        }
    }
}

proof fn lemma_packets_accounted(m: DemuxState, packets: Seq<Pes>)
    requires
        forall|i: int| 0 <= i < packets.len() ==> pes_fits(#[trigger] packets[i]),
    ensures
        accounted(after_packets(m, packets)) == accounted(m) + packets_size(packets),
        after_packets(m, packets).sectors_processed == m.sectors_processed,
    decreases packets.len(),
{
    if packets.len() > 0 {
        let front = packets.drop_last();
        assert forall|i: int| 0 <= i < front.len() implies pes_fits(#[trigger] front[i]) by {
            assert(front[i] == packets[i]);
        }
        lemma_packets_accounted(m, front);
        assert(pes_fits(packets[packets.len() - 1]));
        lemma_packet_accounted(after_packets(m, front), packets.last());
    }
}

/// Bytes of a sector that no counter sees: its pack stuffing and what trails
/// behind its last packet.
pub open spec fn sector_slack(sector: Seq<u8>) -> int {
    match sector_of(sector) {
        Ok(c) => c.pack_header.stuffing_length + c.trailing_unknown_bytes,
        Err(_) => 0,
    }
}

/// A sector adds its 2048 bytes to the account, less its slack.
pub proof fn lemma_sector_balance(m: DemuxState, sector: Seq<u8>)
    ensures
        sector_of(sector) is Ok ==> {
            &&& after_sector(m, sector).sectors_processed == m.sectors_processed + 1
            &&& accounted(after_sector(m, sector)) + 14 == accounted(m) + SECTOR_SIZE
                - sector_slack(sector)
        },
{
    if let Ok(c) = sector_of(sector) {
        lemma_sector_accounted(sector);
        assert forall|i: int| 0 <= i < c.pes_packets.len() implies pes_fits(
            #[trigger] c.pes_packets[i],
        ) by {
            let p = c.pes_packets[i];
            assert(pes_sits_in(sector, p));
            assert(p.raw.len() == p.total_size);
            lemma_prefix_size(sector, c.pes_packets, i);
            lemma_prefix_size(sector, c.pes_packets, i + 1);
            assert(c.pes_packets.take(i + 1).drop_last() =~= c.pes_packets.take(i));
        }
        lemma_packets_accounted(m, c.pes_packets);
    }
}

/// One call on a demuxer.
pub enum DemuxStep {
    /// [`Demuxer::process_sector`] on these bytes.
    Sector(Seq<u8>),
    /// [`Demuxer::begin_cell`] with this flag.
    Cell(bool),
}

/// The state behind a call.
pub open spec fn after_step(m: DemuxState, step: DemuxStep) -> DemuxState {
    match step {
        DemuxStep::Sector(sector) => after_sector(m, sector),
        DemuxStep::Cell(stc_discontinuity) => after_begin_cell(m, stc_discontinuity),
    }
}

/// The state behind a run of calls.
pub open spec fn after_steps(m: DemuxState, steps: Seq<DemuxStep>) -> DemuxState
    decreases steps.len(),
{
    if steps.len() == 0 {
        m
    } else {
        after_step(after_steps(m, steps.drop_last()), steps.last())
    }
}

/// Sectors of a run that parse.
pub open spec fn sectors_in(steps: Seq<DemuxStep>) -> nat
    decreases steps.len(),
{
    if steps.len() == 0 {
        0
    } else {
        sectors_in(steps.drop_last()) + (match steps.last() {
            DemuxStep::Sector(sector) if sector_of(sector) is Ok => 1nat,
            _ => 0nat,
        })
    }
}

/// Slack of a run's sectors, taken together.
pub open spec fn slack_in(steps: Seq<DemuxStep>) -> int
    decreases steps.len(),
{
    if steps.len() == 0 {
        0
    } else {
        slack_in(steps.drop_last()) + (match steps.last() {
            DemuxStep::Sector(sector) => sector_slack(sector),
            _ => 0,
        })
    }
}

/// Over any run of sectors and cell starts, from any state, each sector that
/// parses adds its 2048 bytes, less its slack, to the pack headers and what was
/// stripped, emitted and dropped.
pub proof fn lemma_run_balance(m: DemuxState, steps: Seq<DemuxStep>)
    ensures
        ({
            let n = after_steps(m, steps);
            &&& n.sectors_processed == m.sectors_processed + sectors_in(steps)
            &&& accounted(n) + 14 * sectors_in(steps) + slack_in(steps) == accounted(m)
                + 2048 * sectors_in(steps)
        }),
    decreases steps.len(),
{
    if steps.len() > 0 {
        let front = steps.drop_last();
        lemma_run_balance(m, front);
        if let DemuxStep::Sector(sector) = steps.last() {
            lemma_sector_balance(after_steps(m, front), sector);
        }
    }
}

/// Byte accounting closes: over any run of sectors and cell starts in which no
/// sector has pack stuffing or trailing bytes, the input is exactly the pack
/// headers and what was stripped, emitted and dropped.
pub proof fn lemma_accounting_closes(steps: Seq<DemuxStep>)
    requires
        forall|i: int|
            0 <= i < steps.len() ==> (#[trigger] steps[i] matches DemuxStep::Sector(sector)
                ==> sector_slack(sector) == 0),
    ensures
        ({
            let m = after_steps(start_demux(), steps);
            &&& m.sectors_processed == sectors_in(steps)
            &&& m.sectors_processed * 2048 == m.sectors_processed * 14 + m.stripped_header_bytes
                + m.elementary_emitted_bytes + m.dropped_pes_bytes
        }),
{
    lemma_run_balance(start_demux(), steps);
    lemma_no_slack(steps);
}

proof fn lemma_no_slack(steps: Seq<DemuxStep>)
    requires
        forall|i: int|
            0 <= i < steps.len() ==> (#[trigger] steps[i] matches DemuxStep::Sector(sector)
                ==> sector_slack(sector) == 0),
    ensures
        slack_in(steps) == 0,
    decreases steps.len(),
{
    if steps.len() > 0 {
        let front = steps.drop_last();
        assert forall|i: int| 0 <= i < front.len() implies (
        #[trigger] front[i] matches DemuxStep::Sector(sector) ==> sector_slack(sector) == 0) by {
            assert(front[i] == steps[i]);
        }
        lemma_no_slack(front);
        assert(steps[steps.len() - 1] == steps.last());
    }
}

/// What one stream received, end to end.
pub open spec fn stream_output(key: StreamKey, sent: Seq<(StreamKey, Seq<u8>)>) -> Seq<u8>
    decreases sent.len(),
{
    if sent.len() == 0 {
        Seq::empty()
    } else {
        stream_output(key, sent.drop_last()) + (if sent.last().0 == key {
            sent.last().1
        } else {
            Seq::empty()
        })
    }
}

/// The elementary bytes of one stream in a run of packets: each payload behind
/// its prefix.
pub open spec fn stream_payload(key: StreamKey, packets: Seq<Pes>) -> Seq<u8>
    decreases packets.len(),
{
    if packets.len() == 0 {
        Seq::empty()
    } else {
        let p = packets.last();
        stream_payload(key, packets.drop_last()) + (if key_of_pes(p) == Some(key)
            && !payload_is_short(key, p) {
            p.payload.skip(key_prefix(key))
        } else {
            Seq::empty()
        })
    }
}

/// No stream waits for a resync.
pub open spec fn no_resync_pending(m: DemuxState) -> bool {
    forall|key: StreamKey| #[trigger] record_of(m, key).resync_pending == false
}

/// As long as no resync is due, each stream's output is the plain
/// concatenation of its payloads.
pub proof fn lemma_output_is_concatenation(m: DemuxState, packets: Seq<Pes>, key: StreamKey)
    requires
        no_resync_pending(m),
    ensures
        stream_output(key, emissions(m, packets)) == stream_payload(key, packets),
        no_resync_pending(after_packets(m, packets)),
    decreases packets.len(),
{
    if packets.len() > 0 {
        let front = packets.drop_last();
        let p = packets.last();
        let now = after_packets(m, front);
        lemma_output_is_concatenation(m, front, key);
        assert forall|k: StreamKey| #[trigger]
            record_of(after_pes(now, p), k).resync_pending == false by {
            assert(record_of(now, k).resync_pending == false);
        }
        let before = emissions(m, front);
        if let Some(k) = key_of_pes(p) {
            assert(record_of(now, k).resync_pending == false);
            if let Some(e) = pes_emission(now, p) {
                assert(emissions(m, packets).drop_last() =~= before);
                assert(e.0 == k);
                assert(e.1 =~= p.payload.skip(key_prefix(k)));
            } else {
                assert(payload_is_short(k, p));
                assert(stream_payload(key, front) + Seq::<u8>::empty() =~= stream_payload(
                    key,
                    front,
                ));
            }
        } else {
            assert(stream_payload(key, front) + Seq::<u8>::empty() =~= stream_payload(key, front));
        }
    }
}

/// A stream's count of emitted bytes is the length of its output.
pub proof fn lemma_output_counted(m: DemuxState, packets: Seq<Pes>, key: StreamKey)
    ensures
        record_of(after_packets(m, packets), key).emitted_bytes == record_of(m, key).emitted_bytes
            + stream_output(key, emissions(m, packets)).len(),
    decreases packets.len(),
{
    if packets.len() > 0 {
        let front = packets.drop_last();
        let p = packets.last();
        let now = after_packets(m, front);
        lemma_output_counted(m, front, key);
        let before = emissions(m, front);
        if let Some(e) = pes_emission(now, p) {
            assert(emissions(m, packets).drop_last() =~= before);
        }
    }
}

/// Different streams have different files.
pub proof fn lemma_filenames_disjoint(a: StreamKey, b: StreamKey)
    requires
        key_filename(a) == key_filename(b),
    ensures
        a == b,
{
    reveal_strlit("video.");
    reveal_strlit("audio.mpeg.");
    reveal_strlit("audio.ac3.");
    reveal_strlit("audio.dts.");
    reveal_strlit("audio.lpcm.");
    reveal_strlit("subpicture.");
    let x = key_filename(a);
    assert(x[0] == (match a {
        StreamKey::Video(_) => 'v',
        StreamKey::Subpicture(_) => 's',
        _ => 'a',
    }));
    assert(x[0] == (match b {
        StreamKey::Video(_) => 'v',
        StreamKey::Subpicture(_) => 's',
        _ => 'a',
    }));
    if x[0] == 'a' {
        assert(x[6] == (match a {
            StreamKey::MpegAudio(_) => 'm',
            StreamKey::Ac3(_) => 'a',
            StreamKey::Dts(_) => 'd',
            _ => 'l',
        }));
        assert(x[6] == (match b {
            StreamKey::MpegAudio(_) => 'm',
            StreamKey::Ac3(_) => 'a',
            StreamKey::Dts(_) => 'd',
            _ => 'l',
        }));
    }
    match (a, b) {
        (StreamKey::Video(m), StreamKey::Video(n)) => {
            lemma_middle_injective("video."@, hex_byte(m), hex_byte(n), ".m2v"@);
            lemma_hex_tag_injective(m, n);
        },
        (StreamKey::MpegAudio(m), StreamKey::MpegAudio(n)) => {
            lemma_middle_injective("audio.mpeg."@, hex_byte(m), hex_byte(n), ".mp2"@);
            lemma_hex_tag_injective(m, n);
        },
        (StreamKey::Ac3(m), StreamKey::Ac3(n)) => {
            lemma_middle_injective("audio.ac3."@, dec(m as nat), dec(n as nat), ".ac3"@);
            lemma_dec_injective(m as nat, n as nat);
        },
        (StreamKey::Dts(m), StreamKey::Dts(n)) => {
            lemma_middle_injective("audio.dts."@, dec(m as nat), dec(n as nat), ".dts"@);
            lemma_dec_injective(m as nat, n as nat);
        },
        (StreamKey::Lpcm(m), StreamKey::Lpcm(n)) => {
            lemma_middle_injective("audio.lpcm."@, dec(m as nat), dec(n as nat), ".lpcm"@);
            lemma_dec_injective(m as nat, n as nat);
        },
        (StreamKey::Subpicture(m), StreamKey::Subpicture(n)) => {
            lemma_middle_injective("subpicture."@, dec(m as nat), dec(n as nat), ".sup"@);
            lemma_dec_injective(m as nat, n as nat);
        },
        _ => {},
    }
}

proof fn lemma_hex_tag_injective(a: u8, b: u8)
    requires
        hex_byte(a) == hex_byte(b),
    ensures
        a == b,
{
    let none = Seq::<char>::empty();
    let x = pad_left(hex_upper(a as nat), 2, '0');
    let y = pad_left(hex_upper(b as nat), 2, '0');
    assert("0x"@ + x + none =~= hex_byte(a));
    assert("0x"@ + y + none =~= hex_byte(b));
    lemma_middle_injective("0x"@, x, y, none);
    lemma_hex_byte_injective(a, b);
}

/// A discontinuity marks exactly the AC-3 and DTS streams seen so far, and
/// leaves everything else as it is.
pub proof fn lemma_discontinuity_marks(m: DemuxState, key: StreamKey)
    ensures
        record_of(after_begin_cell(m, true), key).resync_pending == (record_of(
            m,
            key,
        ).resync_pending || (key_resyncs(key) && m.streams.contains_key(key))),
        after_begin_cell(m, true).streams.contains_key(key) == m.streams.contains_key(key),
        record_of(after_begin_cell(m, true), key).emitted_bytes == record_of(m, key).emitted_bytes,
        accounted(after_begin_cell(m, true)) == accounted(m),
        after_begin_cell(m, false) == m,
{
}

/// A mark is used up by the next packet of its stream that carries something;
/// packets of other streams leave it alone.
pub proof fn lemma_resync_is_used_once(m: DemuxState, p: Pes, key: StreamKey)
    ensures
        record_of(after_pes(m, p), key).resync_pending == (record_of(m, key).resync_pending && !(
        key_of_pes(p) == Some(key) && !payload_is_short(key, p))),
{
}

} // verus!
