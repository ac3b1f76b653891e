//! Dump of a title as playback delivers it.
use vstd::prelude::*;
use crate::nav::{
    action_of, counted, event_total, no_events, push_events, with_events, EventCounts, NavAction,
    NavEvent,
};
use crate::sha256::{
    finish_hex, hashed_bytes, hex_of, sha256_digest, sha256_new, sha256_update, RunningHash,
};
use crate::text::{dec, push_dec, push_signed, signed_dec};

verus! {

/// Which title to dump, where to, and after how many events to give up.
#[derive(Debug)]
pub struct Params {
    pub title: i32,
    pub out: String,
    pub max_events: u64,
}

/// What was dumped.
#[derive(Debug)]
pub struct Report {
    pub title: i32,
    pub total_blocks: u64,
    pub total_bytes: u64,
    pub out: String,
    pub sha256: String,
    pub events: EventCounts,
}

/// The running totals of a dump.
pub struct NavDump {
    pub hash: RunningHash,
    pub total_bytes: u64,
    pub total_blocks: u64,
    pub events: EventCounts,
}

/// The bytes that an event adds to the dump.
pub open spec fn event_bytes(e: NavEvent<'_>) -> Seq<u8> {
    match e {
        NavEvent::Block { sector } => sector@,
        _ => Seq::empty(),
    }
}

impl NavDump {
    /// No event came yet.
    pub fn new() -> (d: Self)
        ensures
            hashed_bytes(d.hash) == Seq::<u8>::empty(),
            d.total_bytes == 0,
            d.total_blocks == 0,
            d.events == no_events(),
    {
        NavDump {
            hash: sha256_new(),
            total_bytes: 0,
            total_blocks: 0,
            events: EventCounts::default(),
        }
    }

    /// Takes an event in, and says what to do about it. The sector of a block
    /// is to be written.
    pub fn take(&mut self, e: &NavEvent<'_>) -> (a: NavAction)
        requires
            event_total(old(self).events) < u64::MAX,
            old(self).total_blocks < u64::MAX,
            old(self).total_bytes + event_bytes(*e).len() <= u64::MAX,
        ensures
            a == action_of(*e),
            final(self).events == counted(old(self).events, *e),
            hashed_bytes(final(self).hash) == hashed_bytes(old(self).hash) + event_bytes(*e),
            final(self).total_bytes == old(self).total_bytes + event_bytes(*e).len(),
            final(self).total_blocks == old(self).total_blocks + (if *e is Block {
                1int
            } else {
                0
            }),
    {
        if let NavEvent::Block { sector } = e {
            sha256_update(&mut self.hash, sector);
            self.total_bytes = self.total_bytes + sector.len() as u64;
            self.total_blocks = self.total_blocks + 1;
        } else {
            assert(hashed_bytes(self.hash) + event_bytes(*e) =~= hashed_bytes(self.hash));
        }
        self.events.take(e)
    }

    /// The report, and whether the blocks have 2048 bytes each.
    pub fn finish(self, params: Params) -> (r: (Report, bool))
        ensures
            r.0.title == params.title,
            r.0.total_blocks == self.total_blocks,
            r.0.total_bytes == self.total_bytes,
            r.0.out == params.out,
            r.0.sha256@ == hex_of(sha256_digest(hashed_bytes(self.hash))),
            r.0.events == self.events,
            r.1 == (self.total_blocks == self.total_bytes / 2048),
    {
        let whole = self.total_blocks == self.total_bytes / 2048;
        let report = Report {
            title: params.title,
            total_blocks: self.total_blocks,
            total_bytes: self.total_bytes,
            out: params.out,
            sha256: finish_hex(self.hash),
            events: self.events,
        };
        (report, whole)
    }
}

/// What a dump has once it took `events` in: all bytes of their blocks.
pub open spec fn dumped_bytes(events: Seq<NavEvent<'_>>) -> Seq<u8>
    decreases events.len(),
{
    if events.len() == 0 {
        Seq::empty()
    } else {
        dumped_bytes(events.drop_last()) + event_bytes(events.last())
    }
}

/// Blocks among `events`.
pub open spec fn dumped_blocks(events: Seq<NavEvent<'_>>) -> int
    decreases events.len(),
{
    if events.len() == 0 {
        0
    } else {
        dumped_blocks(events.drop_last()) + (if events.last() is Block {
            1int
        } else {
            0
        })
    }
}

/// Where every block is a whole sector, a dump has 2048 bytes for each block.
pub proof fn lemma_whole_sectors(events: Seq<NavEvent<'_>>)
    requires
        forall|i: int|
            0 <= i < events.len() && (#[trigger] events[i]) is Block ==> event_bytes(
                events[i],
            ).len() == 2048,
    ensures
        dumped_bytes(events).len() == dumped_blocks(events) * 2048,
    decreases events.len(),
{
    if events.len() > 0 {
        let front = events.drop_last();
        assert forall|i: int| 0 <= i < front.len() && (#[trigger] front[i]) is Block implies
            event_bytes(front[i]).len() == 2048 by {
            assert(front[i] == events[i]);
        }
        lemma_whole_sectors(front);
        let last = events[events.len() - 1];
        if last is Block {
            assert(event_bytes(last).len() == 2048);
        }
    }
}

/// What a dump prints.
pub open spec fn report_text_of(r: Report) -> Seq<char> {
    with_events(
        "\ndump-title-nav (title "@ + signed_dec(r.title as int) + ", libdvdnav driven):\n"@
            + "  sectors written:         "@ + dec(r.total_blocks as nat) + "\n"@
            + "  bytes written:           "@ + dec(r.total_bytes as nat) + "\n"@
            + "  output:                  "@ + r.out@ + "\n"@ + "  sha256:                  "@
            + r.sha256@ + "\n\n"@,
        r.events,
    )
}

/// Renders a report.
pub fn report_text(r: &Report) -> (s: String)
    ensures
        s@ == report_text_of(*r),
{
    let mut t = "\ndump-title-nav (title ".to_owned();
    push_signed(&mut t, r.title as i64);
    t.append(", libdvdnav driven):\n");
    t.append("  sectors written:         ");
    push_dec(&mut t, r.total_blocks);
    t.append("\n");
    t.append("  bytes written:           ");
    push_dec(&mut t, r.total_bytes);
    t.append("\n");
    t.append("  output:                  ");
    t.append(r.out.as_str());
    t.append("\n");
    t.append("  sha256:                  ");
    t.append(r.sha256.as_str());
    t.append("\n\n");
    push_events(&mut t, &r.events);
    t
}

} // verus!
