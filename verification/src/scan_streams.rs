//! Tally of a file of sectors: every packet is counted to its stream, and
//! every byte of every packet to one class.
use vstd::prelude::*;
use crate::mpegps::{
    kind_label, kind_of, lemma_prefix_size, lemma_sector_accounted, pack_size, packets_size, pes_sits_in, pes_views,
    scan_sector, sector_of, stream_kind, MpegPsError, MpegPsFault, Pes, PesPacket, Sector,
    StreamKind, SECTOR_SIZE,
};
use crate::demux::pes_fits;
use crate::demux_vob::{push_number, with_number};
use crate::text::{
    dec, is_text_before, lemma_text_before_irreflexive, lemma_text_before_total,
    lemma_text_before_trans, pad_left, pad_right, push_dec, push_dec_spaces, push_right_padded,
    text_before,
};

verus! {

/// What to scan, and how many sectors at most; 0 is no limit.
#[derive(Debug)]
pub struct Params {
    pub path: String,
    pub max_sectors: u64,
}

/// Counts of one stream.
#[derive(Debug, Clone, Copy, PartialEq, Eq, Structural)]
pub struct StreamTally {
    pub packets: u64,
    pub payload_bytes: u64,
    pub packet_bytes: u64,
}

impl Default for StreamTally {
    fn default() -> (t: Self)
        ensures
            t == (StreamTally { packets: 0, payload_bytes: 0, packet_bytes: 0 }),
    {
        StreamTally { packets: 0, payload_bytes: 0, packet_bytes: 0 }
    }
}

/// Counts of one stream, under its label.
#[derive(Debug)]
pub struct TallyEntry {
    pub label: String,
    pub tally: StreamTally,
}

/// The counts of a scan.
#[derive(Debug)]
pub struct Report {
    pub sectors_scanned: u64,
    pub packets_total: u64,
    pub bytes_in_elementary: u64,
    pub bytes_in_nav: u64,
    pub bytes_in_padding: u64,
    pub bytes_in_system_header: u64,
    pub bytes_in_unknown: u64,
    /// The streams, in the order of their labels.
    pub streams: Vec<TallyEntry>,
}

/// The counts of a scan over mathematical values.
pub struct ScanState {
    pub sectors_scanned: nat,
    pub packets_total: nat,
    pub bytes_in_elementary: nat,
    pub bytes_in_nav: nat,
    pub bytes_in_padding: nat,
    pub bytes_in_system_header: nat,
    pub bytes_in_unknown: nat,
    pub streams: Map<Seq<char>, StreamTally>,
}

/// Labels in order, without repetition.
pub open spec fn labels_sorted(v: Seq<TallyEntry>) -> bool {
    forall|i: int, j: int|
        0 <= i < j < v.len() ==> text_before((#[trigger] v[i]).label@, (#[trigger] v[j]).label@)
}

/// `label` stands in `v` at `i`.
pub open spec fn label_at(v: Seq<TallyEntry>, label: Seq<char>, i: int) -> bool {
    0 <= i < v.len() && v[i].label@ == label
}

/// The tallies of `v` by their labels.
pub open spec fn tally_map(v: Seq<TallyEntry>) -> Map<Seq<char>, StreamTally> {
    Map::new(
        |label: Seq<char>| exists|i: int| label_at(v, label, i),
        |label: Seq<char>| v[choose|i: int| label_at(v, label, i)].tally,
    )
}

impl View for Report {
    type V = ScanState;

    open spec fn view(&self) -> ScanState {
        ScanState {
            sectors_scanned: self.sectors_scanned as nat,
            packets_total: self.packets_total as nat,
            bytes_in_elementary: self.bytes_in_elementary as nat,
            bytes_in_nav: self.bytes_in_nav as nat,
            bytes_in_padding: self.bytes_in_padding as nat,
            bytes_in_system_header: self.bytes_in_system_header as nat,
            bytes_in_unknown: self.bytes_in_unknown as nat,
            streams: tally_map(self.streams@),
        }
    }
}

/// Nothing scanned yet.
pub open spec fn start_of_scan() -> ScanState {
    ScanState {
        sectors_scanned: 0,
        packets_total: 0,
        bytes_in_elementary: 0,
        bytes_in_nav: 0,
        bytes_in_padding: 0,
        bytes_in_system_header: 0,
        bytes_in_unknown: 0,
        streams: Map::empty(),
    }
}

/// The tally under a label.
pub open spec fn tally_of(m: ScanState, label: Seq<char>) -> StreamTally {
    if m.streams.contains_key(label) {
        m.streams[label]
    } else {
        StreamTally { packets: 0, payload_bytes: 0, packet_bytes: 0 }
    }
}

/// A tally with one packet more.
pub open spec fn tallied(t: StreamTally, p: Pes) -> StreamTally {
    StreamTally {
        packets: (t.packets + 1) as u64,
        payload_bytes: (t.payload_bytes + p.payload.len()) as u64,
        packet_bytes: (t.packet_bytes + p.total_size) as u64,
    }
}

/// The counts behind a packet: its stream has one packet more, and its bytes
/// go to the class of its kind.
pub open spec fn after_packet(m: ScanState, p: Pes) -> ScanState {
    let kind = kind_of(p.stream_id, p.substream_id);
    let label = kind_label(kind);
    let n = p.total_size as nat;
    let streams = m.streams.insert(label, tallied(tally_of(m, label), p));
    let m = ScanState { packets_total: m.packets_total + 1, streams, ..m };
    match kind {
        StreamKind::Padding => ScanState { bytes_in_padding: m.bytes_in_padding + n, ..m },
        StreamKind::NavPack => ScanState { bytes_in_nav: m.bytes_in_nav + n, ..m },
        StreamKind::SystemHeader => ScanState {
            bytes_in_system_header: m.bytes_in_system_header + n,
            ..m
        },
        StreamKind::Unknown { .. } => ScanState { bytes_in_unknown: m.bytes_in_unknown + n, ..m },
        _ => ScanState { bytes_in_elementary: m.bytes_in_elementary + n, ..m },
    }
}

/// The counts behind a run of packets.
pub open spec fn after_all(m: ScanState, packets: Seq<Pes>) -> ScanState
    decreases packets.len(),
{
    if packets.len() == 0 {
        m
    } else {
        after_packet(after_all(m, packets.drop_last()), packets.last())
    }
}

/// The counts behind a sector that could be parsed.
pub open spec fn after_scan(m: ScanState, c: Sector) -> ScanState {
    let after = after_all(m, c.pes_packets);
    ScanState { sectors_scanned: after.sectors_scanned + 1, ..after }
}

/// Bytes of all classes together.
pub open spec fn bytes_counted(m: ScanState) -> nat {
    m.bytes_in_elementary + m.bytes_in_nav + m.bytes_in_padding + m.bytes_in_system_header
        + m.bytes_in_unknown
}

/// Every byte of every packet is in exactly one class: the classes together
/// grow by the packets, and with pack header and trailing bytes that is the
/// whole sector.
pub proof fn lemma_every_byte_classified(m: ScanState, sector: Seq<u8>)
    ensures
        sector_of(sector) matches Ok(c) ==> {
            &&& after_scan(m, c).sectors_scanned == m.sectors_scanned + 1
            &&& after_scan(m, c).packets_total == m.packets_total + c.pes_packets.len()
            &&& bytes_counted(after_scan(m, c)) == bytes_counted(m) + packets_size(c.pes_packets)
            &&& bytes_counted(after_scan(m, c)) + pack_size(c.pack_header)
                + c.trailing_unknown_bytes == bytes_counted(m) + SECTOR_SIZE
        },
{
    lemma_sector_accounted(sector);
    if let Ok(c) = sector_of(sector) {
        assert forall|i: int| 0 <= i < c.pes_packets.len() implies (
        #[trigger] c.pes_packets[i]).total_size >= 0 by {
            assert(pes_sits_in(sector, c.pes_packets[i]));
        }
        lemma_packets_classified(m, c.pes_packets);
    }
}

proof fn lemma_packets_classified(m: ScanState, packets: Seq<Pes>)
    requires
        forall|i: int| 0 <= i < packets.len() ==> (#[trigger] packets[i]).total_size >= 0,
    ensures
        bytes_counted(after_all(m, packets)) == bytes_counted(m) + packets_size(packets),
        after_all(m, packets).packets_total == m.packets_total + packets.len(),
        after_all(m, packets).sectors_scanned == m.sectors_scanned,
    decreases packets.len(),
{
    if packets.len() > 0 {
        let front = packets.drop_last();
        assert forall|i: int| 0 <= i < front.len() implies (#[trigger] front[i]).total_size
            >= 0 by {
            assert(front[i] == packets[i]);
        }
        lemma_packets_classified(m, front);
        assert(packets[packets.len() - 1].total_size >= 0);
    }
}

proof fn lemma_label(v: Seq<TallyEntry>, i: int)
    requires
        labels_sorted(v),
        0 <= i < v.len(),
    ensures
        tally_map(v).contains_key(v[i].label@),
        tally_map(v)[v[i].label@] == v[i].tally,
{
    let label = v[i].label@;
    assert(label_at(v, label, i));
    let j = choose|j: int| label_at(v, label, j);
    assert(label_at(v, label, j));
    lemma_text_before_irreflexive(label);
    assert(i == j) by {
        if i < j {
            assert(text_before(v[i].label@, v[j].label@));
        } else if j < i {
            assert(text_before(v[j].label@, v[i].label@));
        }
    }
}

proof fn lemma_tally_update(v: Seq<TallyEntry>, w: Seq<TallyEntry>, i: int)
    requires
        labels_sorted(v),
        0 <= i < v.len(),
        w.len() == v.len(),
        w[i].label == v[i].label,
        forall|j: int| 0 <= j < v.len() && j != i ==> #[trigger] w[j] == v[j],
    ensures
        labels_sorted(w),
        tally_map(w) == tally_map(v).insert(w[i].label@, w[i].tally),
{
    assert forall|a: int, b: int| 0 <= a < b < w.len() implies text_before(
        (#[trigger] w[a]).label@,
        (#[trigger] w[b]).label@,
    ) by {
        assert(w[a].label == v[a].label && w[b].label == v[b].label);
    }
    let label = w[i].label@;
    let m = tally_map(w);
    let n = tally_map(v).insert(label, w[i].tally);
    lemma_label(w, i);
    assert forall|l: Seq<char>| m.contains_key(l) <==> n.contains_key(l) by {
        if m.contains_key(l) {
            let j = choose|j: int| label_at(w, l, j);
            assert(w[j].label == v[j].label);
            assert(label_at(v, l, j));
        }
        if n.contains_key(l) && l != label {
            let j = choose|j: int| label_at(v, l, j);
            assert(w[j].label == v[j].label);
            assert(label_at(w, l, j));
        }
    }
    assert forall|l: Seq<char>| m.contains_key(l) implies m[l] == n[l] by {
        let j = choose|j: int| label_at(w, l, j);
        lemma_label(w, j);
        assert(w[j].label == v[j].label);
        lemma_label(v, j);
    }
    assert(m =~= n);
}

proof fn lemma_tally_insert(v: Seq<TallyEntry>, i: int, e: TallyEntry)
    requires
        labels_sorted(v),
        0 <= i <= v.len(),
        forall|j: int| 0 <= j < i ==> text_before((#[trigger] v[j]).label@, e.label@),
        forall|j: int| i <= j < v.len() ==> text_before(e.label@, (#[trigger] v[j]).label@),
    ensures
        labels_sorted(v.insert(i, e)),
        tally_map(v.insert(i, e)) == tally_map(v).insert(e.label@, e.tally),
        !tally_map(v).contains_key(e.label@),
{
    let w = v.insert(i, e);
    assert forall|a: int, b: int| 0 <= a < b < w.len() implies text_before(
        (#[trigger] w[a]).label@,
        (#[trigger] w[b]).label@,
    ) by {
        let va = if a < i {
            a
        } else {
            a - 1
        };
        let vb = if b < i {
            b
        } else {
            b - 1
        };
        if a != i {
            assert(w[a] == v[va]);
        }
        if b != i {
            assert(w[b] == v[vb]);
        }
    }
    let label = e.label@;
    let m = tally_map(w);
    let n = tally_map(v).insert(label, e.tally);
    assert(w[i] == e);
    lemma_label(w, i);
    assert forall|l: Seq<char>| m.contains_key(l) <==> n.contains_key(l) by {
        if m.contains_key(l) && l != label {
            let j = choose|j: int| label_at(w, l, j);
            let k = if j < i {
                j
            } else {
                j - 1
            };
            assert(label_at(v, l, k));
        }
        if n.contains_key(l) && l != label {
            let j = choose|j: int| label_at(v, l, j);
            let k = if j < i {
                j
            } else {
                j + 1
            };
            assert(w[k] == v[j]);
            assert(label_at(w, l, k));
        }
    }
    assert forall|l: Seq<char>| m.contains_key(l) implies m[l] == n[l] by {
        let j = choose|j: int| label_at(w, l, j);
        lemma_label(w, j);
        if l != label {
            let k = if j < i {
                j
            } else {
                j - 1
            };
            assert(w[j] == v[k]);
            lemma_label(v, k);
        }
    }
    assert(m =~= n);
    if tally_map(v).contains_key(label) {
        let j = choose|j: int| label_at(v, label, j);
        lemma_text_before_irreflexive(label);
        assert(v[j].label@ == label);
    }
}

/// Packets of the streams of `v`, taken together.
pub open spec fn tallied_packets(v: Seq<TallyEntry>) -> int
    decreases v.len(),
{
    if v.len() == 0 {
        0
    } else {
        tallied_packets(v.drop_last()) + v.last().tally.packets
    }
}

/// Packet bytes of the streams of `v`, taken together.
pub open spec fn tallied_bytes(v: Seq<TallyEntry>) -> int
    decreases v.len(),
{
    if v.len() == 0 {
        0
    } else {
        tallied_bytes(v.drop_last()) + v.last().tally.packet_bytes
    }
}

proof fn lemma_sums_update(v: Seq<TallyEntry>, w: Seq<TallyEntry>, i: int)
    requires
        0 <= i < v.len(),
        w.len() == v.len(),
        forall|j: int| 0 <= j < v.len() && j != i ==> #[trigger] w[j] == v[j],
    ensures
        tallied_packets(w) == tallied_packets(v) - v[i].tally.packets + w[i].tally.packets,
        tallied_bytes(w) == tallied_bytes(v) - v[i].tally.packet_bytes + w[i].tally.packet_bytes,
    decreases v.len(),
{
    let n = v.len() - 1;
    if i == n {
        assert(w.drop_last() =~= v.drop_last());
    } else {
        assert(w[n] == v[n]);
        lemma_sums_update(v.drop_last(), w.drop_last(), i);
    }
}

proof fn lemma_sums_insert(v: Seq<TallyEntry>, i: int, e: TallyEntry)
    requires
        0 <= i <= v.len(),
    ensures
        tallied_packets(v.insert(i, e)) == tallied_packets(v) + e.tally.packets,
        tallied_bytes(v.insert(i, e)) == tallied_bytes(v) + e.tally.packet_bytes,
    decreases v.len(),
{
    let w = v.insert(i, e);
    if i == v.len() {
        assert(w.drop_last() =~= v);
    } else {
        assert(w.drop_last() =~= v.drop_last().insert(i, e));
        lemma_sums_insert(v.drop_last(), i, e);
    }
}

/// No stream has counted more than all.
pub open spec fn tally_bounded(t: StreamTally, r: Report) -> bool {
    &&& t.packets <= r.packets_total
    &&& t.payload_bytes <= t.packet_bytes
    &&& t.packet_bytes <= bytes_counted(r@)
}

impl Report {
    /// The streams are in order, they have counted together every packet and all
    /// bytes of all classes, and none has counted more than all.
    pub open spec fn wf(&self) -> bool {
        &&& labels_sorted(self.streams@)
        &&& forall|i: int|
            0 <= i < self.streams@.len() ==> tally_bounded(
                (#[trigger] self.streams@[i]).tally,
                *self,
            )
        &&& tallied_packets(self.streams@) == self.packets_total
        &&& tallied_bytes(self.streams@) == bytes_counted(self@)
    }

    /// Nothing scanned yet.
    pub fn new() -> (r: Self)
        ensures
            r.wf(),
            r@ == start_of_scan(),
    {
        let r = Report {
            sectors_scanned: 0,
            packets_total: 0,
            bytes_in_elementary: 0,
            bytes_in_nav: 0,
            bytes_in_padding: 0,
            bytes_in_system_header: 0,
            bytes_in_unknown: 0,
            streams: Vec::new(),
        };
        assert(tally_map(r.streams@) =~= Map::<Seq<char>, StreamTally>::empty()) by {
            assert forall|l: Seq<char>| !tally_map(r.streams@).contains_key(l) by {
                assert forall|i: int| !label_at(r.streams@, l, i) by {}
            }
        }
        r
    }

    /// Whether the counters can take one more sector.
    pub fn has_room(&self) -> (b: bool)
        ensures
            b == (self.packets_total + 341 <= u64::MAX && bytes_counted(self@) + 2048 <= u64::MAX
                && self.sectors_scanned < u64::MAX),
    {
        let bytes: u128 = self.bytes_in_elementary as u128 + self.bytes_in_nav as u128
            + self.bytes_in_padding as u128 + self.bytes_in_system_header as u128
            + self.bytes_in_unknown as u128;
        self.packets_total <= u64::MAX - 341 && bytes + 2048 <= u64::MAX as u128
            && self.sectors_scanned < u64::MAX
    }

    /// Index of a label, or where it would have to be inserted.
    fn find(&self, label: &str) -> (r: Result<usize, usize>)
        requires
            labels_sorted(self.streams@),
        ensures
            match r {
                Ok(i) => label_at(self.streams@, label@, i as int),
                Err(i) => {
                    &&& i <= self.streams@.len()
                    &&& forall|j: int|
                        0 <= j < i ==> text_before((#[trigger] self.streams@[j]).label@, label@)
                    &&& forall|j: int|
                        i <= j < self.streams@.len() ==> text_before(
                            label@,
                            (#[trigger] self.streams@[j]).label@,
                        )
                },
            },
    {
        let mut i: usize = 0;
        while i < self.streams.len()
            invariant
                i <= self.streams@.len(),
                labels_sorted(self.streams@),
                forall|j: int|
                    0 <= j < i ==> text_before((#[trigger] self.streams@[j]).label@, label@),
            decreases self.streams@.len() - i,
        {
            if is_text_before(label, self.streams[i].label.as_str()) {
                assert forall|j: int| i <= j < self.streams@.len() implies text_before(
                    label@,
                    (#[trigger] self.streams@[j]).label@,
                ) by {
                    if i < j {
                        lemma_text_before_trans(
                            label@,
                            self.streams@[i as int].label@,
                            self.streams@[j].label@,
                        );
                    }
                }
                return Err(i);
            }
            if !is_text_before(self.streams[i].label.as_str(), label) {
                proof {
                    lemma_text_before_total(self.streams@[i as int].label@, label@);
                }
                return Ok(i);
            }
            i = i + 1;
        }
        Err(i)
    }

    fn tally_packet(&mut self, label: String, pes: &PesPacket<'_>)
        requires
            labels_sorted(old(self).streams@),
            forall|i: int|
                0 <= i < old(self).streams@.len() ==> {
                    let t = (#[trigger] old(self).streams@[i]).tally;
                    t.packets < u64::MAX && t.payload_bytes + pes@.payload.len() <= u64::MAX
                        && t.packet_bytes + pes@.total_size <= u64::MAX
                },
        ensures
            *final(self) == (Report { streams: final(self).streams, ..*old(self) }),
            tallied_packets(final(self).streams@) == tallied_packets(old(self).streams@) + 1,
            tallied_bytes(final(self).streams@) == tallied_bytes(old(self).streams@)
                + pes@.total_size,
            labels_sorted(final(self).streams@),
            tally_map(final(self).streams@) == tally_map(old(self).streams@).insert(
                label@,
                tallied(tally_of(old(self)@, label@), pes@),
            ),
            forall|i: int|
                0 <= i < final(self).streams@.len() ==> {
                    let t = (#[trigger] final(self).streams@[i]).tally;
                    t == tallied(tally_of(old(self)@, label@), pes@) || exists|j: int|
                        0 <= j < old(self).streams@.len() && t == (
                        #[trigger] old(self).streams@[j]).tally
                },
            tally_of(old(self)@, label@) == (StreamTally {
                packets: 0,
                payload_bytes: 0,
                packet_bytes: 0,
            }) || exists|j: int|
                0 <= j < old(self).streams@.len() && tally_of(old(self)@, label@) == (
                #[trigger] old(self).streams@[j]).tally,
    {
        let ghost before = self.streams@;
        match self.find(label.as_str()) {
            Ok(i) => {
                proof {
                    lemma_label(before, i as int);
                }
                let t = self.streams[i].tally;
                let next = StreamTally {
                    packets: t.packets + 1,
                    payload_bytes: t.payload_bytes + pes.payload.len() as u64,
                    packet_bytes: t.packet_bytes + pes.total_size as u64,
                };
                self.streams[i].tally = next;
                proof {
                    lemma_tally_update(before, self.streams@, i as int);
                    lemma_sums_update(before, self.streams@, i as int);
                    assert(t == before[i as int].tally);
                    assert forall|k: int| 0 <= k < self.streams@.len() implies {
                        let u = (#[trigger] self.streams@[k]).tally;
                        u == next || exists|j: int|
                            0 <= j < before.len() && u == (#[trigger] before[j]).tally
                    } by {
                        if k != i {
                            assert(self.streams@[k] == before[k]);
                        }
                    }
                }
            },
            Err(i) => {
                let tally = StreamTally {
                    packets: 1,
                    payload_bytes: pes.payload.len() as u64,
                    packet_bytes: pes.total_size as u64,
                };
                let e = TallyEntry { label, tally };
                proof {
                    lemma_tally_insert(before, i as int, e);
                    lemma_sums_insert(before, i as int, e);
                }
                self.streams.insert(i, e);
                assert forall|k: int| 0 <= k < self.streams@.len() implies {
                    let u = (#[trigger] self.streams@[k]).tally;
                    u == tally || exists|j: int|
                        0 <= j < before.len() && u == (#[trigger] before[j]).tally
                } by {
                    if k < i {
                        assert(self.streams@[k] == before[k]);
                    } else if k > i {
                        assert(self.streams@[k] == before[k - 1]);
                    }
                }
            },
        }
    }

    /// Counts one packet.
    fn add_packet(&mut self, pes: &PesPacket<'_>)
        requires
            old(self).wf(),
            pes_fits(pes@),
            old(self).packets_total < u64::MAX,
            bytes_counted(old(self)@) + pes.total_size <= u64::MAX,
        ensures
            final(self).wf(),
            final(self)@ == after_packet(old(self)@, pes@),
            final(self).sectors_scanned == old(self).sectors_scanned,
            final(self).packets_total == old(self).packets_total + 1,
            bytes_counted(final(self)@) == bytes_counted(old(self)@) + pes.total_size,
    {
        let kind = stream_kind(pes.stream_id, pes.substream_id);
        let n: u64 = pes.total_size as u64;
        let ghost before = *self;
        self.tally_packet(kind.label(), pes);
        self.packets_total = self.packets_total + 1;
        match kind {
            StreamKind::Padding => {
                self.bytes_in_padding = self.bytes_in_padding + n;
            },
            StreamKind::NavPack => {
                self.bytes_in_nav = self.bytes_in_nav + n;
            },
            StreamKind::SystemHeader => {
                self.bytes_in_system_header = self.bytes_in_system_header + n;
            },
            StreamKind::Unknown { .. } => {
                self.bytes_in_unknown = self.bytes_in_unknown + n;
            },
            _ => {
                self.bytes_in_elementary = self.bytes_in_elementary + n;
            },
        }
        assert forall|i: int| 0 <= i < self.streams@.len() implies tally_bounded(
            (#[trigger] self.streams@[i]).tally,
            *self,
        ) by {
            assert(forall|j: int|
                0 <= j < before.streams@.len() ==> tally_bounded(
                    (#[trigger] before.streams@[j]).tally,
                    before,
                ));
        }
    }

    /// Scans one sector: its packets are counted. Where the sector cannot be
    /// parsed, nothing is.
    pub fn add_sector(&mut self, sector: &[u8], label: &str) -> (r: Result<(), MpegPsError>)
        requires
            old(self).wf(),
            old(self).packets_total + 341 <= u64::MAX,
            bytes_counted(old(self)@) + 2048 <= u64::MAX,
            old(self).sectors_scanned < u64::MAX,
        ensures
            final(self).wf(),
            match r {
                Ok(()) => sector_of(sector@) is Ok && final(self)@ == after_scan(
                    old(self)@,
                    sector_of(sector@)->Ok_0,
                ),
                Err(e) => sector_of(sector@) == Err::<Sector, MpegPsFault>(e@) && *final(self)
                    == *old(self),
            },
            final(self).packets_total <= old(self).packets_total + 341,
            bytes_counted(final(self)@) <= bytes_counted(old(self)@) + 2048,
    {
        let contents = match scan_sector(sector, label) {
            Ok(c) => c,
            Err(e) => return Err(e),
        };
        let ghost packets = contents@.pes_packets;
        proof {
            lemma_sector_accounted(sector@);
        }
        let mut i: usize = 0;
        assert(packets.take(0) =~= Seq::<Pes>::empty());
        while i < contents.pes_packets.len()
            invariant
                i <= contents.pes_packets.len(),
                packets == pes_views(contents.pes_packets@),
                sector_of(sector@) == Ok::<Sector, MpegPsFault>(contents@),
                packets == contents@.pes_packets,
                self.wf(),
                self.sectors_scanned == old(self).sectors_scanned,
                old(self).sectors_scanned < u64::MAX,
                self@ == after_all(old(self)@, packets.take(i as int)),
                old(self).packets_total + 341 <= u64::MAX,
                bytes_counted(old(self)@) + 2048 <= u64::MAX,
                self.packets_total == old(self).packets_total + i,
                bytes_counted(self@) == bytes_counted(old(self)@) + packets_size(
                    packets.take(i as int),
                ),
                packets_size(packets) <= 2034,
                forall|j: int| 0 <= j < packets.len() ==> pes_sits_in(sector@, #[trigger] packets[j]),
            decreases contents.pes_packets.len() - i,
        {
            let ghost now = packets.take(i as int);
            let ghost next = packets.take(i + 1);
            let pes = contents.pes_packets[i];
            proof {
                assert(next.drop_last() =~= now);
                assert(packets[i as int] == pes@);
                assert(pes_sits_in(sector@, packets[i as int]));
                lemma_prefix_size(sector@, packets, i as int);
                lemma_prefix_size(sector@, packets, i + 1);
                assert(pes@.raw.len() == pes@.total_size);
            }
            self.add_packet(&pes);
            i = i + 1;
        }
        assert(packets.take(i as int) =~= packets);
        proof {
            lemma_prefix_size(sector@, packets, i as int);
        }
        self.sectors_scanned = self.sectors_scanned + 1;
        assert forall|j: int| 0 <= j < self.streams@.len() implies tally_bounded(
            (#[trigger] self.streams@[j]).tally,
            *self,
        ) by {}
        Ok(())
    }
}

/// `text` with the row of a stream behind it.
pub open spec fn with_tally(text: Seq<char>, e: TallyEntry) -> Seq<char> {
    text + pad_right(e.label@, 32) + "  "@ + pad_left(dec(e.tally.packets as nat), 10, ' ')
        + "  "@ + pad_left(dec(e.tally.payload_bytes as nat), 14, ' ') + "  "@ + pad_left(
        dec(e.tally.packet_bytes as nat),
        14,
        ' ',
    ) + "\n"@
}

/// `text` with the rows of all streams behind it.
pub open spec fn with_tallies(text: Seq<char>, streams: Seq<TallyEntry>) -> Seq<char>
    decreases streams.len(),
{
    if streams.len() == 0 {
        text
    } else {
        with_tally(with_tallies(text, streams.drop_last()), streams.last())
    }
}

/// What a scan prints.
pub open spec fn report_text_of(path: Seq<char>, r: Report) -> Seq<char> {
    let t = "\nscan-streams summary for "@ + path + ":\n"@;
    let t = with_number(t, "  sectors scanned:        "@, r.sectors_scanned as nat);
    let t = with_number(t, "  total PES packets:      "@, r.packets_total as nat);
    let t = with_number(t, "  bytes in elementary:    "@, r.bytes_in_elementary as nat);
    let t = with_number(t, "  bytes in NV_PCK:        "@, r.bytes_in_nav as nat);
    let t = with_number(t, "  bytes in padding:       "@, r.bytes_in_padding as nat);
    let t = with_number(t, "  bytes in system_header: "@, r.bytes_in_system_header as nat);
    let t = if r.bytes_in_unknown > 0 {
        t + "  bytes in unknown:       "@ + dec(r.bytes_in_unknown as nat) + "  ⚠\n"@
    } else {
        t
    };
    with_tallies(
        t
            + "\nstream                               packets   payload bytes    packet bytes\n"@
            + "--------------------------------  ----------  --------------  --------------\n"@,
        r.streams@,
    )
}

/// Renders the counts of a scan.
pub fn report_text(path: &str, r: &Report) -> (s: String)
    ensures
        s@ == report_text_of(path@, *r),
{
    let mut t = "\nscan-streams summary for ".to_owned();
    t.append(path);
    t.append(":\n");
    push_number(&mut t, "  sectors scanned:        ", r.sectors_scanned);
    push_number(&mut t, "  total PES packets:      ", r.packets_total);
    push_number(&mut t, "  bytes in elementary:    ", r.bytes_in_elementary);
    push_number(&mut t, "  bytes in NV_PCK:        ", r.bytes_in_nav);
    push_number(&mut t, "  bytes in padding:       ", r.bytes_in_padding);
    push_number(&mut t, "  bytes in system_header: ", r.bytes_in_system_header);
    if r.bytes_in_unknown > 0 {
        t.append("  bytes in unknown:       ");
        push_dec(&mut t, r.bytes_in_unknown);
        t.append("  ⚠\n");
    }
    t.append("\nstream                               packets   payload bytes    packet bytes\n");
    t.append("--------------------------------  ----------  --------------  --------------\n");
    let ghost head = t@;
    let mut i: usize = 0;
    assert(r.streams@.take(0) =~= Seq::<TallyEntry>::empty());
    while i < r.streams.len()
        invariant
            i <= r.streams@.len(),
            t@ == with_tallies(head, r.streams@.take(i as int)),
        decreases r.streams@.len() - i,
    {
        push_right_padded(&mut t, r.streams[i].label.as_str(), 32);
        t.append("  ");
        push_dec_spaces(&mut t, r.streams[i].tally.packets, 10);
        t.append("  ");
        push_dec_spaces(&mut t, r.streams[i].tally.payload_bytes, 14);
        t.append("  ");
        push_dec_spaces(&mut t, r.streams[i].tally.packet_bytes, 14);
        t.append("\n");
        i = i + 1;
        assert(r.streams@.take(i as int).drop_last() =~= r.streams@.take(i - 1));
    }
    assert(r.streams@.take(i as int) =~= r.streams@);
    t
}

} // verus!
