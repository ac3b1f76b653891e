//! Demultiplexing of a file of sectors, and the report on it.
use vstd::prelude::*;
use crate::demux::{kind_of_key, DemuxSummary, MagicCheck, StreamEntry};
use crate::mpegps::kind_label;
use crate::text::{
    dec, hex_upper, pad_left, pad_right, push_dec, push_dec_spaces, push_dec_wide,
    push_hex_upper_zeros, push_right_padded,
};

verus! {

/// What to demultiplex, where to, and how many sectors at most; 0 is no limit.
#[derive(Debug)]
pub struct Params {
    pub path: String,
    pub out_dir: String,
    pub max_sectors: u64,
}

/// What was demultiplexed.
#[derive(Debug)]
pub struct Report {
    pub summary: DemuxSummary,
}

/// Whether the limit of sectors is reached; 0 is no limit.
pub fn limit_reached(max_sectors: u64, sectors: u64) -> (b: bool)
    ensures
        b == (max_sectors > 0 && sectors >= max_sectors),
{
    max_sectors > 0 && sectors >= max_sectors
}

/// Bytes that a summary accounts for.
pub open spec fn accounted_of(s: DemuxSummary) -> int {
    s.pack_header_bytes + s.stripped_header_bytes + s.elementary_emitted_bytes
        + s.dropped_pes_bytes
}

/// Bytes that a summary accounts for: pack headers, what was stripped, what
/// was emitted and what was dropped.
pub fn accounted(s: &DemuxSummary) -> (n: u128)
    ensures
        n == accounted_of(*s),
{
    s.pack_header_bytes as u128 + s.stripped_header_bytes as u128 + s.elementary_emitted_bytes
        as u128 + s.dropped_pes_bytes as u128
}

/// Whether every byte of the input is accounted for.
pub fn accounting_closes(s: &DemuxSummary) -> (b: bool)
    ensures
        b == (accounted_of(*s) == s.input_bytes),
{
    accounted(s) == s.input_bytes as u128
}

/// The name of a check's outcome.
pub open spec fn magic_name(m: MagicCheck) -> Seq<char> {
    match m {
        MagicCheck::Pass => "PASS"@,
        MagicCheck::Fail => "FAIL"@,
        MagicCheck::Skipped => "skipped"@,
        MagicCheck::Pending => "pending"@,
    }
}

fn magic_text(m: MagicCheck) -> (s: &'static str)
    ensures
        s@ == magic_name(m),
{
    match m {
        MagicCheck::Pass => "PASS",
        MagicCheck::Fail => "FAIL",
        MagicCheck::Skipped => "skipped",
        MagicCheck::Pending => "pending",
    }
}

/// `text` with a line of accounting behind it.
pub open spec fn with_number(text: Seq<char>, name: Seq<char>, n: nat) -> Seq<char> {
    text + name + dec(n) + "\n"@
}

/// Appends a line with a name and a number.
pub fn push_number(out: &mut String, name: &str, n: u64)
    ensures
        final(out)@ == with_number(old(out)@, name@, n as nat),
{
    out.append(name);
    push_dec(out, n);
    out.append("\n");
}

/// `text` with the verdict on the accounting behind it.
pub open spec fn with_verdict(text: Seq<char>, s: DemuxSummary) -> Seq<char> {
    let total = accounted_of(s);
    if total == s.input_bytes {
        text + "  byte accounting:         PASS\n"@
    } else if total < s.input_bytes {
        text + "  byte accounting:         FAIL ("@ + "-"@ + dec((s.input_bytes - total) as nat)
            + " byte difference)\n"@
    } else {
        text + "  byte accounting:         FAIL ("@ + dec((total - s.input_bytes) as nat)
            + " byte difference)\n"@
    }
}

/// `text` with the accounting behind it.
pub open spec fn with_accounting(text: Seq<char>, s: DemuxSummary) -> Seq<char> {
    let t = with_number(text, "  input bytes:             "@, s.input_bytes as nat);
    let t = with_number(t, "  pack header bytes:       "@, s.pack_header_bytes as nat);
    let t = with_number(t, "  PES/BD header bytes:     "@, s.stripped_header_bytes as nat);
    let t = with_number(t, "  elementary bytes out:    "@, s.elementary_emitted_bytes as nat);
    let t = with_number(t, "  dropped bytes (NV/pad/sys): "@, s.dropped_pes_bytes as nat);
    let t = with_number(t, "  accounted total:         "@, accounted_of(s) as nat);
    with_verdict(t, s)
}

/// Appends the accounting of a summary.
pub fn push_accounting(out: &mut String, s: &DemuxSummary)
    ensures
        final(out)@ == with_accounting(old(out)@, *s),
{
    let total: u128 = accounted(s);
    let input: u128 = s.input_bytes as u128;
    push_number(out, "  input bytes:             ", s.input_bytes);
    push_number(out, "  pack header bytes:       ", s.pack_header_bytes);
    push_number(out, "  PES/BD header bytes:     ", s.stripped_header_bytes);
    push_number(out, "  elementary bytes out:    ", s.elementary_emitted_bytes);
    push_number(out, "  dropped bytes (NV/pad/sys): ", s.dropped_pes_bytes);
    out.append("  accounted total:         ");
    push_dec_wide(out, total);
    out.append("\n");
    if total == input {
        out.append("  byte accounting:         PASS\n");
    } else {
        out.append("  byte accounting:         FAIL (");
        if total < input {
            out.append("-");
            push_dec_wide(out, input - total);
        } else {
            push_dec_wide(out, total - input);
        }
        out.append(" byte difference)\n");
    }
}

/// `text` with bytes behind it, two upper-case digits each, with spaces
/// between them.
pub open spec fn with_bytes(text: Seq<char>, bytes: Seq<u8>) -> Seq<char>
    decreases bytes.len(),
{
    if bytes.len() == 0 {
        text
    } else {
        let t = with_bytes(text, bytes.drop_last());
        (if bytes.len() > 1 {
            t + " "@
        } else {
            t
        }) + pad_left(hex_upper(bytes.last() as nat), 2, '0')
    }
}

fn push_bytes(out: &mut String, bytes: &[u8])
    ensures
        final(out)@ == with_bytes(old(out)@, bytes@),
{
    let mut i: usize = 0;
    assert(bytes@.take(0) =~= Seq::<u8>::empty());
    while i < bytes.len()
        invariant
            i <= bytes.len(),
            out@ == with_bytes(old(out)@, bytes@.take(i as int)),
        decreases bytes.len() - i,
    {
        if i > 0 {
            out.append(" ");
        }
        push_hex_upper_zeros(out, bytes[i] as u64, 2);
        i = i + 1;
        assert(bytes@.take(i as int).drop_last() =~= bytes@.take(i - 1));
    }
    assert(bytes@.take(i as int) =~= bytes@);
}

/// `text` with the row of a stream behind it.
pub open spec fn with_stream(text: Seq<char>, e: StreamEntry) -> Seq<char> {
    let t = text + pad_right(kind_label(kind_of_key(e.key)), 32) + "  "@ + pad_left(
        dec(e.stats.pes_count as nat),
        10,
        ' ',
    ) + "  "@ + pad_left(dec(e.stats.pes_bytes as nat), 14, ' ') + "  "@ + pad_left(
        dec(e.stats.emitted_bytes as nat),
        14,
        ' ',
    ) + "  "@ + pad_right(magic_name(e.stats.magic_check), 12) + "  "@;
    (if e.stats.first_bytes_set {
        with_bytes(t, e.stats.first_bytes@)
    } else {
        t + "(none)"@
    }) + "\n"@
}

fn push_stream(out: &mut String, e: &StreamEntry)
    ensures
        final(out)@ == with_stream(old(out)@, *e),
{
    push_right_padded(out, e.key.label().as_str(), 32);
    out.append("  ");
    push_dec_spaces(out, e.stats.pes_count, 10);
    out.append("  ");
    push_dec_spaces(out, e.stats.pes_bytes, 14);
    out.append("  ");
    push_dec_spaces(out, e.stats.emitted_bytes, 14);
    out.append("  ");
    push_right_padded(out, magic_text(e.stats.magic_check), 12);
    out.append("  ");
    if e.stats.first_bytes_set {
        push_bytes(out, e.stats.first_bytes.as_slice());
    } else {
        out.append("(none)");
    }
    out.append("\n");
}

/// `text` with the rows of all streams behind it.
pub open spec fn with_streams(text: Seq<char>, streams: Seq<StreamEntry>) -> Seq<char>
    decreases streams.len(),
{
    if streams.len() == 0 {
        text
    } else {
        with_stream(with_streams(text, streams.drop_last()), streams.last())
    }
}

/// `text` with the table of streams behind it.
pub open spec fn with_stream_table(text: Seq<char>, streams: Seq<StreamEntry>) -> Seq<char> {
    with_streams(
        text
            + "stream                               packets       PES bytes   emitted bytes  magic check   first bytes\n"@
            + "--------------------------------  ----------  --------------  --------------  ------------  ------------------------\n"@,
        streams,
    )
}

/// Appends the table of streams.
pub fn push_stream_table(out: &mut String, streams: &Vec<StreamEntry>)
    ensures
        final(out)@ == with_stream_table(old(out)@, streams@),
{
    out.append(
        "stream                               packets       PES bytes   emitted bytes  magic check   first bytes\n",
    );
    out.append(
        "--------------------------------  ----------  --------------  --------------  ------------  ------------------------\n",
    );
    let ghost head = out@;
    let mut i: usize = 0;
    assert(streams@.take(0) =~= Seq::<StreamEntry>::empty());
    while i < streams.len()
        invariant
            i <= streams.len(),
            out@ == with_streams(head, streams@.take(i as int)),
        decreases streams.len() - i,
    {
        push_stream(out, &streams[i]);
        i = i + 1;
        assert(streams@.take(i as int).drop_last() =~= streams@.take(i - 1));
    }
    assert(streams@.take(i as int) =~= streams@);
}

/// What a run prints.
pub open spec fn report_text_of(path: Seq<char>, out_dir: Seq<char>, s: DemuxSummary) -> Seq<
    char,
> {
    let t = "\ndemux-vob summary for "@ + path + ":\n"@;
    let t = with_number(t, "  sectors processed:       "@, s.sectors_processed as nat);
    let t = with_number(t, "  PES packets seen:        "@, s.pes_total as nat);
    let t = with_accounting(t, s);
    let t = with_stream_table(t + "\n"@, s.streams@);
    t + "\nwrote "@ + dec(s.streams@.len()) + " per-stream files to "@ + out_dir + "\n"@
}

/// Renders the report of a run.
pub fn report_text(path: &str, out_dir: &str, s: &DemuxSummary) -> (t: String)
    ensures
        t@ == report_text_of(path@, out_dir@, *s),
{
    let mut t = "\ndemux-vob summary for ".to_owned();
    t.append(path);
    t.append(":\n");
    push_number(&mut t, "  sectors processed:       ", s.sectors_processed);
    push_number(&mut t, "  PES packets seen:        ", s.pes_total);
    push_accounting(&mut t, s);
    t.append("\n");
    push_stream_table(&mut t, &s.streams);
    t.append("\nwrote ");
    push_dec(&mut t, s.streams.len() as u64);
    t.append(" per-stream files to ");
    t.append(out_dir);
    t.append("\n");
    t
}

} // verus!
