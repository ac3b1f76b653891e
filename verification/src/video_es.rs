//! Streaming filter for MPEG-2 elementary video that takes `user_data` blocks
//! (`00 00 01 B2`) out of the video and collects them in a sidecar.
//!
//! MPEG-2 video is a stream of units, each led by a start code: `00 00 01` and
//! a value byte. A unit ends where the next start code begins. Zero bytes
//! before a start code are stuffing that belongs to the unit that follows, so
//! the filter holds a trailing run of zeros back until it knows that unit.
use vstd::prelude::*;
use vstd::slice::{slice_subrange, slice_to_vec};

verus! {

/// Value byte of a user_data start code.
pub const USER_DATA_CODE: u8 = 0xB2;

/// `00 00 01` stands at `p`.
pub open spec fn code_at(b: Seq<u8>, p: int) -> bool {
    0 <= p && p + 2 < b.len() && b[p] == 0 && b[p + 1] == 0 && b[p + 2] == 1
}

/// The first start-code prefix of `b` stands at `p`.
pub open spec fn is_first_code(b: Seq<u8>, p: int) -> bool {
    code_at(b, p) && forall|q: int| 0 <= q < p ==> !code_at(b, q)
}

/// Where the first start-code prefix stands, if there is one.
pub open spec fn first_code(b: Seq<u8>) -> Option<int> {
    if exists|p: int| is_first_code(b, p) {
        Some(choose|p: int| is_first_code(b, p))
    } else {
        None
    }
}

/// The first start-code prefix, if its value byte is there too.
pub open spec fn first_whole_code(b: Seq<u8>) -> Option<int> {
    match first_code(b) {
        Some(p) if p + 4 <= b.len() => Some(p),
        _ => None,
    }
}

/// Number of zero bytes at the end of `b`.
pub open spec fn trailing_zeros(b: Seq<u8>) -> nat
    decreases b.len(),
{
    if b.len() > 0 && b.last() == 0 {
        1 + trailing_zeros(b.drop_last())
    } else {
        0
    }
}

/// Body bytes that a unit always has: four in a group-of-pictures header.
pub open spec fn min_body(sc_val: u8) -> nat {
    if sc_val == 0xB8 {
        4
    } else {
        0
    }
}

pub proof fn lemma_first_code(b: Seq<u8>, p: int)
    requires
        is_first_code(b, p),
    ensures
        first_code(b) == Some(p),
{
    let q = choose|q: int| is_first_code(b, q);
    assert(is_first_code(b, q));
}

proof fn lemma_no_code(b: Seq<u8>)
    requires
        forall|q: int| !code_at(b, q),
    ensures
        first_code(b) is None,
{
}

/// A start code anywhere means that there is a first one, not behind it.
pub proof fn lemma_some_code(b: Seq<u8>, q: int)
    requires
        code_at(b, q),
    ensures
        first_code(b) is Some,
        is_first_code(b, first_code(b)->0),
        first_code(b)->0 <= q,
    decreases q,
{
    if exists|r: int| 0 <= r < q && code_at(b, r) {
        let r = choose|r: int| 0 <= r < q && code_at(b, r);
        lemma_some_code(b, r);
    } else {
        assert(is_first_code(b, q));
        lemma_first_code(b, q);
    }
}

pub proof fn lemma_trailing_zeros(b: Seq<u8>)
    ensures
        trailing_zeros(b) <= b.len(),
        forall|i: int| b.len() - trailing_zeros(b) <= i < b.len() ==> b[i] == 0,
        trailing_zeros(b) < b.len() ==> b[b.len() - trailing_zeros(b) - 1] != 0,
    decreases b.len(),
{
    if b.len() > 0 && b.last() == 0 {
        let front = b.drop_last();
        lemma_trailing_zeros(front);
        assert forall|i: int| b.len() - trailing_zeros(b) <= i < b.len() implies b[i] == 0 by {
            if i < front.len() {
                assert(front[i] == b[i]);
            }
        }
    }
}

proof fn lemma_trailing_zeros_are(b: Seq<u8>, n: nat)
    requires
        n <= b.len(),
        forall|i: int| b.len() - n <= i < b.len() ==> b[i] == 0,
        n < b.len() ==> b[b.len() - n - 1] != 0,
    ensures
        trailing_zeros(b) == n,
{
    lemma_trailing_zeros(b);
}

/// Counts the zero bytes at the end of `buf`.
pub fn trailing_zero_count(buf: &[u8]) -> (n: usize)
    ensures
        n == trailing_zeros(buf@),
{
    let mut n: usize = 0;
    while n < buf.len() && buf[buf.len() - 1 - n] == 0
        invariant
            n <= buf.len(),
            forall|i: int| buf.len() - n <= i < buf.len() ==> buf[i] == 0,
        decreases buf.len() - n,
    {
        n = n + 1;
    }
    proof {
        lemma_trailing_zeros_are(buf@, n as nat);
    }
    n
}

/// Mandatory body length behind a kept start code.
fn min_body_bytes_for(sc_val: u8) -> (n: usize)
    ensures
        n == min_body(sc_val),
{
    match sc_val {
        0xB8 => 4,
        _ => 0,
    }
}

/// Locates the first start-code prefix in `buf`.
pub fn find_start_code(buf: &[u8]) -> (r: Option<usize>)
    ensures
        match r {
            Some(p) => is_first_code(buf@, p as int) && first_code(buf@) == Some(p as int),
            None => first_code(buf@) is None && forall|q: int| !code_at(buf@, q),
        },
{
    if buf.len() < 3 {
        return None;
    }
    let mut i: usize = 0;
    while i < buf.len() - 2
        invariant
            3 <= buf.len(),
            i <= buf.len() - 2,
            forall|q: int| 0 <= q < i ==> !code_at(buf@, q),
        decreases buf.len() - i,
    {
        if buf[i] == 0 && buf[i + 1] == 0 && buf[i + 2] == 1 {
            proof {
                lemma_first_code(buf@, i as int);
            }
            return Some(i);
        }
        i = i + 1;
    }
    None
}

/// Where the filter stands between two units.
pub struct FilterState {
    /// Inside a user_data block.
    pub in_user: bool,
    /// Value byte of the last start code that was kept.
    pub last_sc: u8,
    /// Body bytes of that unit that went to the video.
    pub since: nat,
}

/// What was written: video bytes, user_data bytes, and how many user_data
/// blocks ended.
pub struct Split {
    pub video: Seq<u8>,
    pub user: Seq<u8>,
    pub blocks: nat,
}

/// A stretch of bytes that goes to one of the two outputs.
pub open spec fn to_sink(in_user: bool, bytes: Seq<u8>) -> Split {
    if in_user {
        Split { video: Seq::empty(), user: bytes, blocks: 0 }
    } else {
        Split { video: bytes, user: Seq::empty(), blocks: 0 }
    }
}

/// First `a`, then `b`.
pub open spec fn join(a: Split, b: Split) -> Split {
    Split { video: a.video + b.video, user: a.user + b.user, blocks: a.blocks + b.blocks }
}

pub open spec fn max_int(a: int, b: int) -> int {
    if a < b {
        b
    } else {
        a
    }
}

pub open spec fn min_int(a: int, b: int) -> int {
    if a < b {
        a
    } else {
        b
    }
}

/// How many bytes before a start code with value `v` belong to the unit that
/// it ends. Where the destination changes, the zero stuffing goes with the
/// new unit, but a group-of-pictures header keeps its four body bytes.
pub open spec fn content_end(s: FilterState, prefix: Seq<u8>, v: u8) -> int {
    let kept = prefix.len() - trailing_zeros(prefix);
    if !s.in_user && v == USER_DATA_CODE {
        max_int(kept, min_int(max_int(0, min_body(s.last_sc) - s.since), prefix.len() as int))
    } else if s.in_user && v != USER_DATA_CODE {
        kept
    } else {
        prefix.len() as int
    }
}

/// The state behind a start code with value `v`.
pub open spec fn state_after(s: FilterState, prefix: Seq<u8>, v: u8) -> FilterState {
    if v == USER_DATA_CODE {
        FilterState {
            in_user: true,
            last_sc: s.last_sc,
            since: if s.in_user {
                s.since
            } else {
                s.since + content_end(s, prefix, v) as nat
            },
        }
    } else {
        FilterState { in_user: false, last_sc: v, since: 0 }
    }
}

/// What is written for the bytes up to and with the start code at `p`.
pub open spec fn unit_split(s: FilterState, rem: Seq<u8>, p: int) -> Split {
    let v = rem[p + 3];
    let cut = content_end(s, rem.take(p), v);
    join(
        to_sink(s.in_user, rem.take(cut)),
        Split {
            blocks: if s.in_user {
                1
            } else {
                0
            },
            ..to_sink(v == USER_DATA_CODE, rem.subrange(cut, p + 4))
        },
    )
}

/// How many bytes can be written when no whole start code is left: all but
/// the trailing zeros and a possible beginning of a start code.
pub open spec fn commit_point(rem: Seq<u8>) -> int {
    match first_code(rem) {
        Some(p) => p - trailing_zeros(rem.take(p)),
        None => rem.len() - min_int(
            max_int(3, trailing_zeros(rem) as int),
            rem.len() as int,
        ),
    }
}

/// The state once `written` bytes of the current unit's body have gone out.
pub open spec fn state_grown(s: FilterState, written: int) -> FilterState {
    if s.in_user {
        s
    } else {
        FilterState { since: s.since + written as nat, ..s }
    }
}

/// Outcome of feeding `rem`, the bytes held back counted.
pub struct Fed {
    pub state: FilterState,
    pub tail: Seq<u8>,
    pub split: Split,
}

/// What one feed does.
pub open spec fn fed(s: FilterState, rem: Seq<u8>) -> Fed
    decreases rem.len(),
{
    match first_whole_code(rem) {
        Some(p) if 0 <= p && p + 4 <= rem.len() => {
            let next = fed(state_after(s, rem.take(p), rem[p + 3]), rem.skip(p + 4));
            Fed { split: join(unit_split(s, rem, p), next.split), ..next }
        },
        _ => {
            let n = commit_point(rem);
            Fed {
                state: state_grown(s, n),
                tail: rem.skip(n),
                split: to_sink(s.in_user, rem.take(n)),
            }
        },
    }
}

/// What a whole stream `rem` becomes, from state `s` to its end.
pub open spec fn split_stream(s: FilterState, rem: Seq<u8>) -> Split
    decreases rem.len(),
{
    match first_whole_code(rem) {
        Some(p) if 0 <= p && p + 4 <= rem.len() => join(
            unit_split(s, rem, p),
            split_stream(state_after(s, rem.take(p), rem[p + 3]), rem.skip(p + 4)),
        ),
        _ => Split {
            blocks: if s.in_user {
                1
            } else {
                0
            },
            ..to_sink(s.in_user, rem)
        },
    }
}

/// The state of a new filter.
pub open spec fn start_state() -> FilterState {
    FilterState { in_user: false, last_sc: 0, since: 0 }
}

/// Streaming filter that splits an MPEG-2 video byte stream into a video
/// without user_data and the user_data alone.
///
/// The caller provides the two outputs on each call.
pub struct UserDataFilter {
    /// Inside a user_data block.
    pub in_user: bool,
    /// Bytes of the input held back: a possible start-code prefix and any run
    /// of zeros whose destination the next start code decides.
    pub tail: Vec<u8>,
    /// Value byte of the last start code that was kept.
    pub last_sc_value: u8,
    /// Bytes written to the video since that start code.
    pub bytes_since_last_sc: u64,
    /// Bytes written to the video so far.
    pub video_bytes: u64,
    /// Bytes written to the user_data sidecar so far.
    pub user_data_bytes: u64,
    /// Number of complete user_data blocks.
    pub user_data_blocks: u64,
}

/// Totals of a finished filter.
#[derive(Debug, Clone, Copy)]
pub struct UserDataStats {
    pub video_bytes: u64,
    pub user_data_bytes: u64,
    pub user_data_blocks: u64,
}

impl Default for UserDataFilter {
    fn default() -> (f: Self)
        ensures
            f.wf(),
            f.state() == start_state(),
            f.held() == Seq::<u8>::empty(),
            f.video_bytes == 0,
            f.user_data_bytes == 0,
            f.user_data_blocks == 0,
    {
        UserDataFilter::new()
    }
}

impl UserDataFilter {
    /// Where the filter stands.
    pub open spec fn state(&self) -> FilterState {
        FilterState {
            in_user: self.in_user,
            last_sc: self.last_sc_value,
            since: self.bytes_since_last_sc as nat,
        }
    }

    /// Bytes held back.
    pub open spec fn held(&self) -> Seq<u8> {
        self.tail@
    }

    /// Bytes taken in so far.
    pub open spec fn taken(&self) -> int {
        self.video_bytes + self.user_data_bytes + self.held().len()
    }

    /// The counters are consistent: no unit is longer than the video, and each
    /// user_data block took at least its start code.
    pub open spec fn wf(&self) -> bool {
        &&& self.bytes_since_last_sc <= self.video_bytes
        &&& self.user_data_blocks * 4 + (if self.in_user {
            4int
        } else {
            0
        }) <= self.user_data_bytes
    }

    /// A filter at the start of a stream.
    pub fn new() -> (f: Self)
        ensures
            f.wf(),
            f.state() == start_state(),
            f.held() == Seq::<u8>::empty(),
            f.video_bytes == 0,
            f.user_data_bytes == 0,
            f.user_data_blocks == 0,
    {
        UserDataFilter {
            in_user: false,
            tail: Vec::new(),
            last_sc_value: 0,
            bytes_since_last_sc: 0,
            video_bytes: 0,
            user_data_bytes: 0,
            user_data_blocks: 0,
        }
    }

    /// Passes `chunk` through the filter: bytes outside user_data go to
    /// `video_w`, user_data with its start code and leading zero stuffing to
    /// `user_data_w`.
    pub fn feed(&mut self, chunk: &[u8], video_w: &mut Vec<u8>, user_data_w: &mut Vec<u8>)
        requires
            old(self).wf(),
            old(self).taken() + chunk.len() <= u64::MAX,
            old(self).held().len() + chunk.len() <= usize::MAX,
        ensures
            final(self).wf(),
            ({
                let out = fed(old(self).state(), old(self).held() + chunk@);
                &&& final(self).state() == out.state
                &&& final(self).held() == out.tail
                &&& final(video_w)@ == old(video_w)@ + out.split.video
                &&& final(user_data_w)@ == old(user_data_w)@ + out.split.user
                &&& final(self).video_bytes == old(self).video_bytes + out.split.video.len()
                &&& final(self).user_data_bytes == old(self).user_data_bytes
                    + out.split.user.len()
                &&& final(self).user_data_blocks == old(self).user_data_blocks + out.split.blocks
            }),
            final(self).taken() == old(self).taken() + chunk.len(),
    {
        let mut combined: Vec<u8> = Vec::new();
        combined.append(&mut self.tail);
        combined.extend_from_slice(chunk);
        assert(combined@ =~= old(self).held() + chunk@);
        let ghost all = combined@;
        let ghost s0 = old(self).state();
        let ghost v0 = old(video_w)@;
        let ghost u0 = old(user_data_w)@;
        let ghost mut done = to_sink(false, Seq::empty());
        let mut i: usize = 0;
        proof {
            assert(v0 + done.video =~= v0);
            assert(u0 + done.user =~= u0);
            lemma_feed_begins(s0, all, done);
        }
        loop
            invariant
                i <= combined.len(),
                combined@ == all,
                all == old(self).held() + chunk@,
                s0 == old(self).state(),
                v0 == old(video_w)@,
                u0 == old(user_data_w)@,
                self.wf(),
                self.tail@.len() == 0,
                video_w@ == v0 + done.video,
                user_data_w@ == u0 + done.user,
                self.video_bytes == old(self).video_bytes + done.video.len(),
                self.user_data_bytes == old(self).user_data_bytes + done.user.len(),
                self.user_data_blocks == old(self).user_data_blocks + done.blocks,
                done.video.len() + done.user.len() == i,
                old(self).taken() + chunk.len() <= u64::MAX,
                old(self).taken() == old(self).video_bytes + old(self).user_data_bytes + old(
                    self,
                ).held().len(),
                feed_so_far(s0, all, done, self.state(), i as int),
            decreases combined.len() - i,
        {
            let rem = slice_subrange(combined.as_slice(), i, combined.len());
            assert(rem@ =~= all.skip(i as int));
            let found = find_start_code(rem);
            match found {
                Some(p) if rem.len() - p >= 4 => {
                    let ghost st = self.state();
                    let ghost before = done;
                    let ghost unit = unit_split(st, rem@, p as int);
                    self.write_unit(rem, p, video_w, user_data_w);
                    i = i + p + 4;
                    proof {
                        lemma_fed_step(s0, all, before, st, i - p - 4, p as int);
                        done = join(before, unit);
                        assert(v0 + (before.video + unit.video) =~= (v0 + before.video)
                            + unit.video);
                        assert(u0 + (before.user + unit.user) =~= (u0 + before.user) + unit.user);
                    }
                },
                _ => {
                    let ghost st = self.state();
                    let commit: usize = commit_len(rem, found);
                    let content = slice_subrange(rem, 0, commit);
                    assert(content@ =~= rem@.take(commit as int));
                    self.write_state_bytes(content, video_w, user_data_w);
                    self.tail = slice_to_vec(slice_subrange(rem, commit, rem.len()));
                    proof {
                        assert(self.tail@ =~= rem@.skip(commit as int));
                        let last = to_sink(st.in_user, rem@.take(commit as int));
                        lemma_fed_last(s0, all, done, st, i as int);
                        assert(v0 + (done.video + last.video) =~= (v0 + done.video) + last.video);
                        assert(u0 + (done.user + last.user) =~= (u0 + done.user) + last.user);
                    }
                    return;
                },
            }
        }
    }

    /// Writes the bytes up to and with the start code at `p`.
    fn write_unit(
        &mut self,
        rem: &[u8],
        p: usize,
        video_w: &mut Vec<u8>,
        user_data_w: &mut Vec<u8>,
    )
        requires
            old(self).wf(),
            p + 4 <= rem.len(),
            old(self).video_bytes + old(self).user_data_bytes + p + 4 <= u64::MAX,
        ensures
            final(self).wf(),
            final(self).tail == old(self).tail,
            final(self).state() == state_after(
                old(self).state(),
                rem@.take(p as int),
                rem[p + 3],
            ),
            ({
                let unit = unit_split(old(self).state(), rem@, p as int);
                &&& final(video_w)@ == old(video_w)@ + unit.video
                &&& final(user_data_w)@ == old(user_data_w)@ + unit.user
                &&& final(self).video_bytes == old(self).video_bytes + unit.video.len()
                &&& final(self).user_data_bytes == old(self).user_data_bytes + unit.user.len()
                &&& final(self).user_data_blocks == old(self).user_data_blocks + unit.blocks
                &&& unit.video.len() + unit.user.len() == p + 4
            }),
    {
        let prefix = slice_subrange(rem, 0, p);
        assert(prefix@ =~= rem@.take(p as int));
        let sc_val: u8 = rem[p + 3];
        let starts_user = sc_val == USER_DATA_CODE;
        let zeros: usize = trailing_zero_count(prefix);
        proof {
            lemma_trailing_zeros(prefix@);
        }
        let mut cut: usize = p;
        if !self.in_user && starts_user {
            let min_body: u64 = min_body_bytes_for(self.last_sc_value) as u64;
            let body_remaining: usize = min_body.saturating_sub(self.bytes_since_last_sc) as usize;
            let floor: usize = if body_remaining < p {
                body_remaining
            } else {
                p
            };
            cut = if p - zeros < floor {
                floor
            } else {
                p - zeros
            };
        } else if self.in_user && !starts_user {
            cut = p - zeros;
        }
        assert(cut == content_end(self.state(), rem@.take(p as int), sc_val));
        let content = slice_subrange(rem, 0, cut);
        let lead = slice_subrange(rem, cut, p + 4);
        assert(content@ =~= rem@.take(cut as int));
        self.write_state_bytes(content, video_w, user_data_w);
        if self.in_user {
            self.user_data_blocks = self.user_data_blocks + 1;
        }
        if starts_user {
            user_data_w.extend_from_slice(lead);
            self.user_data_bytes = self.user_data_bytes + lead.len() as u64;
        } else {
            video_w.extend_from_slice(lead);
            self.video_bytes = self.video_bytes + lead.len() as u64;
            self.last_sc_value = sc_val;
            self.bytes_since_last_sc = 0;
        }
        self.in_user = starts_user;
        proof {
            let unit = unit_split(old(self).state(), rem@, p as int);
            assert(video_w@ =~= old(video_w)@ + unit.video);
            assert(user_data_w@ =~= old(user_data_w)@ + unit.user);
        }
    }

    /// Writes the held-back bytes at the end of the stream. They cannot be a
    /// start code, so they belong to the current unit.
    pub fn finish(self, video_w: &mut Vec<u8>, user_data_w: &mut Vec<u8>) -> (stats: UserDataStats)
        requires
            self.wf(),
            self.taken() <= u64::MAX,
        ensures
            ({
                let out = to_sink(self.state().in_user, self.held());
                &&& final(video_w)@ == old(video_w)@ + out.video
                &&& final(user_data_w)@ == old(user_data_w)@ + out.user
                &&& stats.video_bytes == self.video_bytes + out.video.len()
                &&& stats.user_data_bytes == self.user_data_bytes + out.user.len()
                &&& stats.user_data_blocks == self.user_data_blocks + (if self.state().in_user {
                    1int
                } else {
                    0
                })
            }),
    {
        let mut this = self;
        let mut tail: Vec<u8> = Vec::new();
        tail.append(&mut this.tail);
        assert(tail@ =~= self.held());
        this.write_state_bytes(tail.as_slice(), video_w, user_data_w);
        if this.in_user {
            this.user_data_blocks = this.user_data_blocks + 1;
        }
        UserDataStats {
            video_bytes: this.video_bytes,
            user_data_bytes: this.user_data_bytes,
            user_data_blocks: this.user_data_blocks,
        }
    }

    fn write_state_bytes(
        &mut self,
        bytes: &[u8],
        video_w: &mut Vec<u8>,
        user_data_w: &mut Vec<u8>,
    )
        requires
            old(self).wf(),
            old(self).video_bytes + old(self).user_data_bytes + bytes.len() <= u64::MAX,
        ensures
            final(self).wf(),
            final(self).tail == old(self).tail,
            final(self).state() == state_grown(old(self).state(), bytes.len() as int),
            final(video_w)@ == old(video_w)@ + to_sink(old(self).in_user, bytes@).video,
            final(user_data_w)@ == old(user_data_w)@ + to_sink(old(self).in_user, bytes@).user,
            final(self).video_bytes == old(self).video_bytes + to_sink(
                old(self).in_user,
                bytes@,
            ).video.len(),
            final(self).user_data_bytes == old(self).user_data_bytes + to_sink(
                old(self).in_user,
                bytes@,
            ).user.len(),
            final(self).user_data_blocks == old(self).user_data_blocks,
    {
        if self.in_user {
            user_data_w.extend_from_slice(bytes);
            self.user_data_bytes = self.user_data_bytes + bytes.len() as u64;
        } else {
            video_w.extend_from_slice(bytes);
            self.video_bytes = self.video_bytes + bytes.len() as u64;
            self.bytes_since_last_sc = self.bytes_since_last_sc + bytes.len() as u64;
        }
        assert(video_w@ =~= old(video_w)@ + to_sink(old(self).in_user, bytes@).video);
        assert(user_data_w@ =~= old(user_data_w)@ + to_sink(old(self).in_user, bytes@).user);
    }
}

/// How many bytes of `rem` can be written, given its first start-code prefix.
fn commit_len(rem: &[u8], found: Option<usize>) -> (n: usize)
    requires
        match found {
            Some(p) => first_code(rem@) == Some(p as int) && p + 3 <= rem.len(),
            None => first_code(rem@) is None,
        },
    ensures
        n == commit_point(rem@),
        n <= rem.len(),
{
    match found {
        Some(p) => {
            let prefix = slice_subrange(rem, 0, p);
            assert(prefix@ =~= rem@.take(p as int));
            proof {
                lemma_trailing_zeros(prefix@);
            }
            p - trailing_zero_count(prefix)
        },
        None => {
            let zeros: usize = trailing_zero_count(rem);
            let hold: usize = if zeros < 3 {
                3
            } else {
                zeros
            };
            if hold < rem.len() {
                rem.len() - hold
            } else {
                0
            }
        },
    }
}

/// Once `done` is written for the first `i` bytes, feeding the rest from `st`
/// completes the feed of `all` from `s`.
#[verifier::opaque]
spec fn feed_so_far(s: FilterState, all: Seq<u8>, done: Split, st: FilterState, i: int) -> bool {
    fed(s, all) == after(done, fed(st, all.skip(i)))
}

/// A feed that comes after `done` was written.
spec fn after(done: Split, f: Fed) -> Fed {
    Fed { split: join(done, f.split), ..f }
}

proof fn lemma_feed_begins(s: FilterState, all: Seq<u8>, none: Split)
    requires
        none == to_sink(false, Seq::empty()),
    ensures
        feed_so_far(s, all, none, s, 0),
{
    reveal(feed_so_far);
    let f = fed(s, all);
    assert(all.skip(0) =~= all);
    assert(none.video + f.split.video =~= f.split.video);
    assert(none.user + f.split.user =~= f.split.user);
}

/// One unit of a feed.
proof fn lemma_fed_step(s: FilterState, all: Seq<u8>, done: Split, st: FilterState, i: int, p: int)
    requires
        feed_so_far(s, all, done, st, i),
        0 <= i <= all.len(),
        first_code(all.skip(i)) == Some(p),
        0 <= p,
        i + p + 4 <= all.len(),
    ensures
        ({
            let rem = all.skip(i);
            feed_so_far(
                s,
                all,
                join(done, unit_split(st, rem, p)),
                state_after(st, rem.take(p), rem[p + 3]),
                i + p + 4,
            )
        }),
{
    reveal(feed_so_far);
    let rem = all.skip(i);
    let next = fed(state_after(st, rem.take(p), rem[p + 3]), rem.skip(p + 4));
    assert(rem.skip(p + 4) =~= all.skip(i + p + 4));
    lemma_join_assoc(done, unit_split(st, rem, p), next.split);
}

/// The end of a feed.
proof fn lemma_fed_last(s: FilterState, all: Seq<u8>, done: Split, st: FilterState, i: int)
    requires
        feed_so_far(s, all, done, st, i),
        first_whole_code(all.skip(i)) is None,
    ensures
        ({
            let rem = all.skip(i);
            let n = commit_point(rem);
            fed(s, all) == Fed {
                state: state_grown(st, n),
                tail: rem.skip(n),
                split: join(done, to_sink(st.in_user, rem.take(n))),
            }
        }),
{
    reveal(feed_so_far);
}

proof fn lemma_join_assoc(a: Split, b: Split, c: Split)
    ensures
        join(join(a, b), c) == join(a, join(b, c)),
{
    assert((a.video + b.video) + c.video =~= a.video + (b.video + c.video));
    assert((a.user + b.user) + c.user =~= a.user + (b.user + c.user));
}

proof fn lemma_trailing_zeros_concat(a: Seq<u8>, b: Seq<u8>)
    ensures
        trailing_zeros(a + b) == if trailing_zeros(b) < b.len() {
            trailing_zeros(b)
        } else {
            b.len() + trailing_zeros(a)
        },
{
    lemma_trailing_zeros(a);
    lemma_trailing_zeros(b);
    let all = a + b;
    let n: nat = if trailing_zeros(b) < b.len() {
        trailing_zeros(b)
    } else {
        b.len() + trailing_zeros(a)
    };
    assert forall|i: int| all.len() - n <= i < all.len() implies all[i] == 0 by {
        if i >= a.len() {
            assert(all[i] == b[i - a.len()]);
        }
    }
    if n < all.len() {
        let i = all.len() - n - 1;
        if i >= a.len() {
            assert(all[i] == b[i - a.len()]);
        }
    }
    lemma_trailing_zeros_are(all, n);
}

/// A code of the second part is the code of the whole, moved.
proof fn lemma_code_shift(head: Seq<u8>, y: Seq<u8>)
    requires
        forall|q: int| 0 <= q < head.len() ==> !code_at(head + y, q),
    ensures
        match first_code(y) {
            Some(p) => first_code(head + y) == Some(head.len() + p) && is_first_code(y, p),
            None => first_code(head + y) is None,
        },
{
    let all = head + y;
    let n = head.len() as int;
    if let Some(p) = first_code(y) {
        assert(is_first_code(y, p));
        assert(code_at(all, n + p));
        assert forall|q: int| 0 <= q < n + p implies !code_at(all, q) by {
            if q >= n {
                assert(!code_at(y, q - n));
            }
        }
        lemma_first_code(all, n + p);
    } else {
        assert forall|q: int| !code_at(all, q) by {
            if code_at(all, q) {
                assert(code_at(y, q - n));
                lemma_some_code(y, q - n);
            }
        }
        lemma_no_code(all);
    }
}

/// Where a unit's content ends does not depend on how much of it went out
/// early.
proof fn lemma_early_cut(s: FilterState, head: Seq<u8>, short: Seq<u8>, v: u8)
    requires
        head.len() == 0 || trailing_zeros(short) < short.len() || head.last() != 0,
    ensures
        ({
            let grown = state_grown(s, head.len() as int);
            &&& content_end(s, head + short, v) == head.len() + content_end(grown, short, v)
            &&& state_after(s, head + short, v) == state_after(grown, short, v)
            &&& 0 <= content_end(grown, short, v) <= short.len()
        }),
{
    lemma_trailing_zeros_concat(head, short);
    lemma_trailing_zeros(short);
    lemma_trailing_zeros(head);
}

/// A unit whose first bytes went out early is written as those bytes and the
/// rest.
proof fn lemma_early_unit(s: FilterState, head: Seq<u8>, y: Seq<u8>, p: int)
    requires
        0 <= p,
        p + 4 <= y.len(),
        head.len() == 0 || trailing_zeros(y.take(p)) < p || head.last() != 0,
    ensures
        ({
            let n = head.len() as int;
            unit_split(s, head + y, n + p) == join(
                to_sink(s.in_user, head),
                unit_split(state_grown(s, n), y, p),
            )
        }),
{
    let all = head + y;
    let n = head.len() as int;
    let v = y[p + 3];
    assert(all[n + p + 3] == v);
    assert(all.take(n + p) =~= head + y.take(p));
    lemma_early_cut(s, head, y.take(p), v);
    let cut = content_end(state_grown(s, n), y.take(p), v);
    assert(all.take(n + cut) =~= head + y.take(cut));
    assert(all.subrange(n + cut, n + p + 4) =~= y.subrange(cut, p + 4));
    lemma_join_assoc(
        to_sink(s.in_user, head),
        to_sink(s.in_user, y.take(cut)),
        Split {
            blocks: if s.in_user {
                1
            } else {
                0
            },
            ..to_sink(v == USER_DATA_CODE, y.subrange(cut, p + 4))
        },
    );
    lemma_sink_concat(s.in_user, head, y.take(cut));
}

proof fn lemma_sink_concat(in_user: bool, a: Seq<u8>, b: Seq<u8>)
    ensures
        to_sink(in_user, a + b) == join(to_sink(in_user, a), to_sink(in_user, b)),
{
    assert(to_sink(in_user, a + b).video =~= to_sink(in_user, a).video + to_sink(in_user, b).video);
    assert(to_sink(in_user, a + b).user =~= to_sink(in_user, a).user + to_sink(in_user, b).user);
}

/// Bytes that went out early make no difference to what follows.
proof fn lemma_early_bytes(s: FilterState, head: Seq<u8>, y: Seq<u8>)
    requires
        forall|q: int| 0 <= q < head.len() ==> !code_at(head + y, q),
        forall|p: int| #[trigger]
            is_first_code(y, p) ==> head.len() == 0 || trailing_zeros(y.take(p)) < p
                || head.last() != 0,
    ensures
        split_stream(s, head + y) == join(
            to_sink(s.in_user, head),
            split_stream(state_grown(s, head.len() as int), y),
        ),
{
    let all = head + y;
    let n = head.len() as int;
    let grown = state_grown(s, n);
    lemma_code_shift(head, y);
    match first_whole_code(y) {
        Some(p) => {
            let v = y[p + 3];
            let short = y.take(p);
            assert(all.take(n + p) =~= head + short);
            assert(all[n + p + 3] == v);
            assert(all.skip(n + p + 4) =~= y.skip(p + 4));
            lemma_early_cut(s, head, short, v);
            lemma_early_unit(s, head, y, p);
            lemma_join_assoc(
                to_sink(s.in_user, head),
                unit_split(grown, y, p),
                split_stream(state_after(grown, short, v), y.skip(p + 4)),
            );
        },
        None => {
            lemma_sink_concat(s.in_user, head, y);
        },
    }
}

/// What a feed writes is what the whole stream would have at that place, and
/// the state and the held-back bytes carry all that the rest depends on.
pub proof fn lemma_feed_is_prefix(s: FilterState, rem: Seq<u8>, x: Seq<u8>)
    ensures
        split_stream(s, rem + x) == join(
            fed(s, rem).split,
            split_stream(fed(s, rem).state, fed(s, rem).tail + x),
        ),
        first_whole_code(fed(s, rem).tail) is None,
    decreases rem.len(),
{
    let all = rem + x;
    match first_whole_code(rem) {
        Some(p) => {
            assert(is_first_code(rem, p));
            assert forall|q: int| 0 <= q < p implies !code_at(all, q) by {
                assert(!code_at(rem, q));
            }
            assert(is_first_code(all, p));
            lemma_first_code(all, p);
            assert(all.take(p) =~= rem.take(p));
            assert(all.skip(p + 4) =~= rem.skip(p + 4) + x);
            let cut = content_end(s, rem.take(p), rem[p + 3]);
            lemma_trailing_zeros(rem.take(p));
            assert(all.take(cut) =~= rem.take(cut));
            assert(all.subrange(cut, p + 4) =~= rem.subrange(cut, p + 4));
            let st = state_after(s, rem.take(p), rem[p + 3]);
            let next = fed(st, rem.skip(p + 4));
            lemma_feed_is_prefix(st, rem.skip(p + 4), x);
            lemma_join_assoc(
                unit_split(s, rem, p),
                next.split,
                split_stream(next.state, next.tail + x),
            );
        },
        None => {
            let n = commit_point(rem);
            let head = rem.take(n);
            let tail = rem.skip(n);
            let y = tail + x;
            lemma_trailing_zeros(rem);
            assert(head + y =~= all) by {
                if let Some(p) = first_code(rem) {
                    lemma_trailing_zeros(rem.take(p));
                }
            }
            if let Some(p) = first_code(rem) {
                assert(is_first_code(rem, p));
                lemma_trailing_zeros(rem.take(p));
                assert(p + 3 == rem.len());
                assert forall|q: int| 0 <= q < n implies !code_at(all, q) by {
                    assert(!code_at(rem, q));
                }
                if n > 0 {
                    assert(head.last() == rem.take(p)[n - 1]);
                }
                assert forall|q: int| code_at(tail, q) implies q + 3 == tail.len() by {
                    assert(code_at(rem, n + q));
                }
            } else {
                assert forall|q: int| !code_at(rem, q) by {
                    if code_at(rem, q) {
                        lemma_some_code(rem, q);
                    }
                }
                assert forall|q: int| 0 <= q < n implies !code_at(all, q) by {
                    assert(!code_at(rem, q));
                }
                assert forall|p: int| #[trigger] is_first_code(y, p) implies head.len() == 0
                    || trailing_zeros(y.take(p)) < p || head.last() != 0 by {
                    if head.len() > 0 {
                        lemma_trailing_zeros(y.take(p));
                        if trailing_zeros(rem) >= 3 {
                            assert(head.last() == rem[rem.len() - trailing_zeros(rem) - 1]);
                        } else {
                            let k = 2 - trailing_zeros(rem);
                            assert(tail.len() == 3);
                            assert(y[k] != 0) by {
                                assert(y[k] == rem[rem.len() - trailing_zeros(rem) - 1]);
                            }
                            assert(code_at(y, p));
                            if p <= k {
                                assert(!code_at(rem, n + p));
                                assert(p + 2 >= 3) by {
                                    if p + 2 < 3 {
                                        assert(y[p] == rem[n + p]);
                                        assert(y[p + 1] == rem[n + p + 1]);
                                        assert(y[p + 2] == rem[n + p + 2]);
                                    }
                                }
                            } else {
                                assert(y.take(p)[k] != 0);
                            }
                        }
                    }
                }
                assert forall|q: int| !code_at(tail, q) by {
                    if code_at(tail, q) {
                        assert(code_at(rem, n + q));
                    }
                }
            }
            lemma_early_bytes(s, head, y);
        },
    }
}

/// What feeding `chunks` one by one and then finishing writes.
pub open spec fn fed_chunks(s: FilterState, tail: Seq<u8>, chunks: Seq<Seq<u8>>) -> Split
    decreases chunks.len(),
{
    if chunks.len() == 0 {
        Split {
            blocks: if s.in_user {
                1
            } else {
                0
            },
            ..to_sink(s.in_user, tail)
        }
    } else {
        let out = fed(s, tail + chunks.first());
        join(out.split, fed_chunks(out.state, out.tail, chunks.drop_first()))
    }
}

/// How a stream is cut into chunks makes no difference: feeding the chunks and
/// finishing writes what the whole stream would.
pub proof fn lemma_chunking_is_irrelevant(s: FilterState, tail: Seq<u8>, chunks: Seq<Seq<u8>>)
    requires
        first_whole_code(tail) is None,
    ensures
        fed_chunks(s, tail, chunks) == split_stream(s, tail + chunks.flatten()),
    decreases chunks.len(),
{
    if chunks.len() == 0 {
        assert(tail + chunks.flatten() =~= tail);
    } else {
        let first = chunks.first();
        let rest = chunks.drop_first();
        let out = fed(s, tail + first);
        lemma_feed_is_prefix(s, tail + first, rest.flatten());
        lemma_chunking_is_irrelevant(out.state, out.tail, rest);
        assert(tail + chunks.flatten() =~= (tail + first) + rest.flatten());
    }
}

/// Nothing is lost and nothing is made up: the two outputs together hold the
/// bytes of the stream.
pub proof fn lemma_bytes_conserved(s: FilterState, rem: Seq<u8>)
    ensures
        split_stream(s, rem).video.len() + split_stream(s, rem).user.len() == rem.len(),
        split_stream(s, rem).video.to_multiset().add(split_stream(s, rem).user.to_multiset())
            == rem.to_multiset(),
    decreases rem.len(),
{
    broadcast use vstd::seq_lib::group_to_multiset_ensures;

    match first_whole_code(rem) {
        Some(p) => {
            assert(is_first_code(rem, p));
            let v = rem[p + 3];
            lemma_trailing_zeros(rem.take(p));
            let cut = content_end(s, rem.take(p), v);
            let st = state_after(s, rem.take(p), v);
            let a = rem.take(cut);
            let b = rem.subrange(cut, p + 4);
            let c = rem.skip(p + 4);
            lemma_bytes_conserved(st, c);
            let next = split_stream(st, c);
            let unit = unit_split(s, rem, p);
            assert(rem =~= (a + b) + c);
            vstd::seq_lib::lemma_multiset_commutative(a + b, c);
            vstd::seq_lib::lemma_multiset_commutative(a, b);
            vstd::seq_lib::lemma_multiset_commutative(unit.video, next.video);
            vstd::seq_lib::lemma_multiset_commutative(unit.user, next.user);
            let (va, vb) = (to_sink(s.in_user, a).video, to_sink(v == USER_DATA_CODE, b).video);
            let (ua, ub) = (to_sink(s.in_user, a).user, to_sink(v == USER_DATA_CODE, b).user);
            vstd::seq_lib::lemma_multiset_commutative(va, vb);
            vstd::seq_lib::lemma_multiset_commutative(ua, ub);
            assert(split_stream(s, rem).video.to_multiset().add(
                split_stream(s, rem).user.to_multiset(),
            ) =~= rem.to_multiset());
        },
        None => {
            assert(split_stream(s, rem).video.to_multiset().add(
                split_stream(s, rem).user.to_multiset(),
            ) =~= rem.to_multiset());
        },
    }
}

/// The bytes of `all` that are marked with `user`, in their order.
pub open spec fn routed(all: Seq<u8>, marks: Seq<bool>, user: bool) -> Seq<u8>
    decreases all.len(),
{
    if all.len() == 0 {
        Seq::empty()
    } else {
        let front = routed(all.drop_last(), marks.drop_last(), user);
        if marks.last() == user {
            front.push(all.last())
        } else {
            front
        }
    }
}

/// Where each byte of a stream goes: `true` for the user_data.
pub open spec fn route_of(s: FilterState, rem: Seq<u8>) -> Seq<bool>
    decreases rem.len(),
{
    match first_whole_code(rem) {
        Some(p) if 0 <= p && p + 4 <= rem.len() => {
            let v = rem[p + 3];
            let cut = content_end(s, rem.take(p), v);
            Seq::new(cut as nat, |i: int| s.in_user) + Seq::new(
                (p + 4 - cut) as nat,
                |i: int| v == USER_DATA_CODE,
            ) + route_of(state_after(s, rem.take(p), v), rem.skip(p + 4))
        },
        _ => Seq::new(rem.len(), |i: int| s.in_user),
    }
}

proof fn lemma_routed_concat(a: Seq<u8>, b: Seq<u8>, x: Seq<bool>, y: Seq<bool>, user: bool)
    requires
        a.len() == x.len(),
        b.len() == y.len(),
    ensures
        routed(a + b, x + y, user) == routed(a, x, user) + routed(b, y, user),
    decreases b.len(),
{
    if b.len() == 0 {
        assert(a + b =~= a);
        assert(x + y =~= x);
        assert(routed(a, x, user) + routed(b, y, user) =~= routed(a, x, user));
    } else {
        assert((a + b).drop_last() =~= a + b.drop_last());
        assert((x + y).drop_last() =~= x + y.drop_last());
        lemma_routed_concat(a, b.drop_last(), x, y.drop_last(), user);
        assert(routed(a + b, x + y, user) =~= routed(a, x, user) + routed(b, y, user));
    }
}

proof fn lemma_routed_alike(a: Seq<u8>, x: Seq<bool>, mark: bool)
    requires
        a.len() == x.len(),
        forall|i: int| 0 <= i < x.len() ==> x[i] == mark,
    ensures
        routed(a, x, true) == to_sink(mark, a).user,
        routed(a, x, false) == to_sink(mark, a).video,
    decreases a.len(),
{
    if a.len() > 0 {
        let front = a.drop_last();
        lemma_routed_alike(front, x.drop_last(), mark);
        assert(x.last() == mark);
        assert(front.push(a.last()) =~= a);
    }
}

/// The two outputs are complementary parts of the stream, in its order: each
/// byte goes to one of them, none is lost, repeated or moved.
pub proof fn lemma_outputs_share_the_stream(s: FilterState, rem: Seq<u8>)
    ensures
        route_of(s, rem).len() == rem.len(),
        split_stream(s, rem).video == routed(rem, route_of(s, rem), false),
        split_stream(s, rem).user == routed(rem, route_of(s, rem), true),
    decreases rem.len(),
{
    match first_whole_code(rem) {
        Some(p) => {
            assert(is_first_code(rem, p));
            let v = rem[p + 3];
            lemma_trailing_zeros(rem.take(p));
            let cut = content_end(s, rem.take(p), v);
            let st = state_after(s, rem.take(p), v);
            let a = rem.take(cut);
            let b = rem.subrange(cut, p + 4);
            let c = rem.skip(p + 4);
            let x = Seq::new(cut as nat, |i: int| s.in_user);
            let y = Seq::new((p + 4 - cut) as nat, |i: int| v == USER_DATA_CODE);
            let z = route_of(st, c);
            lemma_outputs_share_the_stream(st, c);
            assert(rem =~= (a + b) + c);
            lemma_routed_alike(a, x, s.in_user);
            lemma_routed_alike(b, y, v == USER_DATA_CODE);
            lemma_routed_concat(a, b, x, y, false);
            lemma_routed_concat(a, b, x, y, true);
            lemma_routed_concat(a + b, c, x + y, z, false);
            lemma_routed_concat(a + b, c, x + y, z, true);
        },
        None => {
            lemma_routed_alike(rem, route_of(s, rem), s.in_user);
        },
    }
}

/// A user_data start code, `00 00 01 B2`, stands at `q`.
pub open spec fn user_code_at(b: Seq<u8>, q: int) -> bool {
    code_at(b, q) && q + 3 < b.len() && b[q + 3] == USER_DATA_CODE
}

/// Number of positions from `i` on at which a user_data start code stands.
pub open spec fn user_codes_from(b: Seq<u8>, i: int) -> nat
    decreases b.len() - i,
{
    if i >= b.len() {
        0
    } else {
        user_codes_from(b, i + 1) + (if user_code_at(b, i) {
            1nat
        } else {
            0nat
        })
    }
}

/// Number of positions at which a user_data start code stands.
pub open spec fn user_codes(b: Seq<u8>) -> nat {
    user_codes_from(b, 0)
}

/// No start code begins with the value byte of another: `00 00 01 00 00 01`
/// does not occur.
pub open spec fn codes_apart(b: Seq<u8>) -> bool {
    forall|q: int| #[trigger] code_at(b, q) ==> !code_at(b, q + 3)
}

proof fn lemma_user_codes_skip(b: Seq<u8>, k: int, i: int)
    requires
        0 <= k <= b.len(),
        0 <= i,
    ensures
        user_codes_from(b, k + i) == user_codes_from(b.skip(k), i),
    decreases b.len() - k - i,
{
    if k + i < b.len() {
        lemma_user_codes_skip(b, k, i + 1);
        assert(user_code_at(b, k + i) == user_code_at(b.skip(k), i));
    }
}

proof fn lemma_user_codes_none(b: Seq<u8>, i: int, j: int)
    requires
        i <= j,
        forall|q: int| i <= q < j ==> !#[trigger] user_code_at(b, q),
    ensures
        user_codes_from(b, i) == user_codes_from(b, j),
    decreases j - i,
{
    if i < j {
        lemma_user_codes_none(b, i + 1, j);
        assert(!user_code_at(b, i));
    }
}

proof fn lemma_no_user_code(b: Seq<u8>, i: int, q: int)
    requires
        user_codes_from(b, i) == 0,
        i <= q,
    ensures
        !user_code_at(b, q),
    decreases q - i,
{
    if i < q && i < b.len() {
        lemma_no_user_code(b, i + 1, q);
    }
}

pub proof fn lemma_codes_apart_skip(b: Seq<u8>, k: int)
    requires
        codes_apart(b),
        0 <= k <= b.len(),
    ensures
        codes_apart(b.skip(k)),
{
    let c = b.skip(k);
    assert forall|q: int| #[trigger] code_at(c, q) implies !code_at(c, q + 3) by {
        assert(code_at(b, q + k));
        if code_at(c, q + 3) {
            assert(code_at(b, q + k + 3));
        }
    }
}

/// The codes behind a whole first code at `p` are those of the rest.
proof fn lemma_user_codes_step(b: Seq<u8>, p: int)
    requires
        codes_apart(b),
        is_first_code(b, p),
        p + 4 <= b.len(),
    ensures
        user_codes(b) == user_codes(b.skip(p + 4)) + (if b[p + 3] == USER_DATA_CODE {
            1nat
        } else {
            0nat
        }),
{
    assert forall|q: int| 0 <= q < p implies !#[trigger] user_code_at(b, q) by {
        assert(!code_at(b, q));
    }
    lemma_user_codes_none(b, 0, p);
    assert(code_at(b, p));
    assert forall|q: int| p + 1 <= q < p + 4 implies !#[trigger] user_code_at(b, q) by {
        assert(!code_at(b, p + 3));
    }
    lemma_user_codes_none(b, p + 1, p + 4);
    lemma_user_codes_skip(b, p + 4, 0);
    assert(user_code_at(b, p) == (b[p + 3] == USER_DATA_CODE));
}

/// Where start codes do not overlap, each user_data start code of the stream is
/// one block, the last counted also where the stream ends inside it; a block
/// that was open before counts too.
pub proof fn lemma_blocks_are_user_codes(s: FilterState, b: Seq<u8>)
    requires
        codes_apart(b),
    ensures
        split_stream(s, b).blocks == user_codes(b) + (if s.in_user {
            1nat
        } else {
            0nat
        }),
    decreases b.len(),
{
    match first_whole_code(b) {
        Some(p) => {
            assert(is_first_code(b, p));
            lemma_user_codes_step(b, p);
            lemma_codes_apart_skip(b, p + 4);
            lemma_blocks_are_user_codes(state_after(s, b.take(p), b[p + 3]), b.skip(p + 4));
        },
        None => {
            assert forall|q: int| 0 <= q < b.len() implies !#[trigger] user_code_at(b, q) by {
                if user_code_at(b, q) {
                    lemma_some_code(b, q);
                }
            }
            lemma_user_codes_none(b, 0, b.len() as int);
        },
    }
}

/// No unit of `b` is a user_data block.
pub open spec fn no_user_data(b: Seq<u8>) -> bool
    decreases b.len(),
{
    match first_whole_code(b) {
        Some(p) if 0 <= p && p + 4 <= b.len() => b[p + 3] != USER_DATA_CODE && no_user_data(
            b.skip(p + 4),
        ),
        _ => true,
    }
}

/// A stream without user_data passes through unchanged.
pub proof fn lemma_clean_stream_passes(s: FilterState, b: Seq<u8>)
    requires
        !s.in_user,
        no_user_data(b),
    ensures
        split_stream(s, b) == (Split { video: b, user: Seq::empty(), blocks: 0 }),
    decreases b.len(),
{
    let out = split_stream(s, b);
    match first_whole_code(b) {
        Some(p) => {
            assert(is_first_code(b, p));
            lemma_clean_stream_passes(state_after(s, b.take(p), b[p + 3]), b.skip(p + 4));
            assert(out.video =~= b);
            assert(out.user =~= Seq::<u8>::empty());
        },
        None => {},
    }
}

/// `b` is a run of `z` zeros, a start code that is kept, and a clean stream.
spec fn led_by_kept_code(b: Seq<u8>, z: int) -> bool {
    &&& 0 <= z
    &&& z + 4 <= b.len()
    &&& forall|i: int| 0 <= i < z + 2 ==> b[i] == 0
    &&& b[z + 2] == 1
    &&& b[z + 3] != USER_DATA_CODE
    &&& no_user_data(b.skip(z + 4))
}

/// A stream with no code inside `head`, followed by a kept code, is clean.
proof fn lemma_clean_after(head: Seq<u8>, b: Seq<u8>, z: int)
    requires
        led_by_kept_code(b, z),
        forall|q: int| !code_at(head, q),
    ensures
        no_user_data(head + b),
{
    let all = head + b;
    let p = head.len() + z;
    assert forall|q: int| 0 <= q < p implies !code_at(all, q) by {
        if code_at(all, q) {
            if q + 2 >= head.len() {
                assert(all[q + 2] == b[q + 2 - head.len()]);
            } else {
                assert(code_at(head, q));
            }
        }
    }
    assert(all[p] == b[z] && all[p + 1] == b[z + 1] && all[p + 2] == b[z + 2]);
    assert(is_first_code(all, p));
    lemma_first_code(all, p);
    assert(all.skip(p + 4) =~= b.skip(z + 4));
    assert(all[p + 3] == b[z + 3]);
}

/// The video that the filter writes holds no user_data block.
pub proof fn lemma_video_has_no_user_data(s: FilterState, b: Seq<u8>)
    ensures
        no_user_data(split_stream(s, b).video),
    decreases b.len(),
{
    lemma_video_shape(s, b);
}

proof fn lemma_video_shape(s: FilterState, b: Seq<u8>)
    ensures
        no_user_data(split_stream(s, b).video),
        s.in_user ==> split_stream(s, b).video.len() == 0 || exists|z: int|
            led_by_kept_code(split_stream(s, b).video, z),
    decreases b.len(),
{
    let video = split_stream(s, b).video;
    match first_whole_code(b) {
        Some(p) => {
            assert(is_first_code(b, p));
            let v = b[p + 3];
            lemma_trailing_zeros(b.take(p));
            let cut = content_end(s, b.take(p), v);
            let st = state_after(s, b.take(p), v);
            let rest = split_stream(st, b.skip(p + 4)).video;
            lemma_video_shape(st, b.skip(p + 4));
            let head = b.take(cut);
            assert forall|q: int| !code_at(head, q) by {
                if code_at(head, q) {
                    assert(code_at(b, q));
                }
            }
            if v == USER_DATA_CODE {
                if s.in_user {
                    assert(video =~= rest);
                } else {
                    assert(video =~= head + rest);
                    if rest.len() == 0 {
                        assert(video =~= head);
                        lemma_no_code(video);
                    } else {
                        let z = choose|z: int| led_by_kept_code(rest, z);
                        lemma_clean_after(head, rest, z);
                    }
                }
            } else {
                let lead = b.subrange(cut, p + 4);
                let z = p - cut;
                let tail = lead + rest;
                assert(tail.skip(z + 4) =~= rest);
                if s.in_user {
                    assert(video =~= tail);
                    assert forall|i: int| 0 <= i < z + 2 implies tail[i] == 0 by {
                        if i < z {
                            assert(b.take(p)[cut + i] == 0);
                        }
                    }
                    assert(led_by_kept_code(tail, z));
                    lemma_clean_after(Seq::empty(), tail, z);
                    assert(Seq::<u8>::empty() + tail =~= tail);
                } else {
                    assert(video =~= head + tail);
                    assert(z == 0);
                    assert(led_by_kept_code(tail, 0));
                    lemma_clean_after(head, tail, 0);
                }
            }
        },
        None => {
            if s.in_user {
            } else {
                assert(video =~= b);
            }
        },
    }
}

/// Two zeros, or nothing.
spec fn led_by_zeros(w: Seq<u8>) -> bool {
    w.len() == 0 || (w.len() >= 2 && w[0] == 0 && w[1] == 0)
}

/// What would make a start code of a zero in front.
spec fn led_by_zero_one(w: Seq<u8>) -> bool {
    w.len() >= 2 && w[0] == 0 && w[1] == 1
}

/// What is cut out of a stream makes no start codes overlap.
proof fn lemma_video_codes_apart(s: FilterState, b: Seq<u8>)
    requires
        codes_apart(b),
    ensures
        codes_apart(split_stream(s, b).video),
        s.in_user ==> led_by_zeros(split_stream(s, b).video),
        !s.in_user && s.last_sc != 0xB8 && led_by_zero_one(split_stream(s, b).video)
            ==> led_by_zero_one(b),
    decreases b.len(),
{
    let w = split_stream(s, b).video;
    match first_whole_code(b) {
        Some(p) => {
            assert(is_first_code(b, p));
            let v = b[p + 3];
            lemma_trailing_zeros(b.take(p));
            let cut = content_end(s, b.take(p), v);
            let st = state_after(s, b.take(p), v);
            let rest = split_stream(st, b.skip(p + 4)).video;
            lemma_codes_apart_skip(b, p + 4);
            lemma_video_codes_apart(st, b.skip(p + 4));
            let head = b.take(cut);
            assert forall|q: int| !code_at(head, q) by {
                if code_at(head, q) {
                    assert(code_at(b, q));
                }
            }
            if v == USER_DATA_CODE {
                if s.in_user {
                    assert(w =~= rest);
                } else {
                    assert(w =~= head + rest);
                    lemma_apart_behind_head(head, rest);
                    if s.last_sc != 0xB8 && led_by_zero_one(w) {
                        if cut == 1 {
                            assert(b.take(p)[0] != 0);
                        } else if cut == 0 {
                            assert(w[1] == rest[1]);
                        }
                    }
                }
            } else {
                assert(code_at(b, p));
                assert(!code_at(b, p + 3));
                if v == 0 && led_by_zero_one(rest) {
                    assert(b.skip(p + 4)[0] == b[p + 4] && b.skip(p + 4)[1] == b[p + 5]);
                    assert(code_at(b, p + 3));
                }
                let lead = b.subrange(cut, p + 4);
                let z = p - cut;
                assert forall|i: int| 0 <= i < z + 2 implies lead[i] == 0 by {
                    if i < z {
                        assert(b.take(p)[cut + i] == 0);
                    }
                }
                lemma_apart_behind_code(lead, z, rest);
                if s.in_user {
                    assert(w =~= lead + rest);
                } else {
                    assert(w =~= head + (lead + rest));
                    lemma_apart_behind_head(head, lead + rest);
                }
            }
        },
        None => {
            if !s.in_user {
                assert(w =~= b);
            }
        },
    }
}

proof fn lemma_apart_behind_head(head: Seq<u8>, rest: Seq<u8>)
    requires
        forall|q: int| !code_at(head, q),
        codes_apart(rest),
        led_by_zeros(rest),
    ensures
        codes_apart(head + rest),
{
    let w = head + rest;
    let n = head.len() as int;
    assert forall|q: int| #[trigger] code_at(w, q) implies !code_at(w, q + 3) by {
        if q + 2 < n {
            assert(code_at(head, q));
        } else if q < n {
            assert(w[q + 2] == rest[q + 2 - n]);
        } else {
            assert(code_at(rest, q - n));
            if code_at(w, q + 3) {
                assert(code_at(rest, q - n + 3));
            }
        }
    }
}

proof fn lemma_apart_behind_code(lead: Seq<u8>, z: int, rest: Seq<u8>)
    requires
        0 <= z,
        lead.len() == z + 4,
        forall|i: int| 0 <= i < z + 2 ==> lead[i] == 0,
        lead[z + 2] == 1,
        codes_apart(rest),
        lead[z + 3] == 0 ==> !led_by_zero_one(rest),
    ensures
        codes_apart(lead + rest),
        led_by_zeros(lead + rest),
{
    let w = lead + rest;
    let n = z + 4;
    assert(!code_at(w, z + 3)) by {
        if code_at(w, z + 3) {
            assert(w[z + 4] == rest[0] && w[z + 5] == rest[1]);
        }
    }
    assert forall|q: int| #[trigger] code_at(w, q) implies !code_at(w, q + 3) by {
        if q < z {
            assert(w[q + 2] == lead[q + 2]);
        } else if q < n {
            assert(q == z || q == z + 3) by {
                assert(w[z + 2] == 1);
            }
        } else {
            assert(code_at(rest, q - n));
            if code_at(w, q + 3) {
                assert(code_at(rest, q - n + 3));
            }
        }
    }
}

/// Where start codes do not overlap, a stream without user_data units holds no
/// user_data start code at all.
proof fn lemma_clean_has_no_user_code(b: Seq<u8>, q: int)
    requires
        codes_apart(b),
        no_user_data(b),
    ensures
        !user_code_at(b, q),
    decreases b.len(),
{
    if user_code_at(b, q) {
        lemma_some_code(b, q);
        let p = first_code(b)->0;
        assert(is_first_code(b, p));
        assert(code_at(b, p));
        if q > p {
            assert(!code_at(b, p + 3));
            lemma_codes_apart_skip(b, p + 4);
            assert(user_code_at(b.skip(p + 4), q - p - 4));
            lemma_clean_has_no_user_code(b.skip(p + 4), q - p - 4);
        }
    }
}

/// Where start codes do not overlap in the stream, the video holds no user_data
/// start code at any position.
pub proof fn lemma_video_has_no_user_code(s: FilterState, b: Seq<u8>)
    requires
        codes_apart(b),
    ensures
        forall|q: int| !#[trigger] user_code_at(split_stream(s, b).video, q),
{
    let video = split_stream(s, b).video;
    lemma_video_has_no_user_data(s, b);
    lemma_video_codes_apart(s, b);
    assert forall|q: int| !#[trigger] user_code_at(video, q) by {
        lemma_clean_has_no_user_code(video, q);
    }
}

proof fn lemma_no_code_no_unit(b: Seq<u8>)
    requires
        forall|q: int| !#[trigger] user_code_at(b, q),
    ensures
        no_user_data(b),
    decreases b.len(),
{
    if let Some(p) = first_whole_code(b) {
        assert(is_first_code(b, p));
        assert(!user_code_at(b, p));
        let rest = b.skip(p + 4);
        assert forall|q: int| !#[trigger] user_code_at(rest, q) by {
            if user_code_at(rest, q) {
                assert(user_code_at(b, q + p + 4));
            }
        }
        lemma_no_code_no_unit(rest);
    }
}

/// A stream without user_data start codes comes out as it went in.
pub proof fn lemma_stream_without_user_codes_passes(s: FilterState, b: Seq<u8>)
    requires
        !s.in_user,
        user_codes(b) == 0,
    ensures
        split_stream(s, b) == (Split { video: b, user: Seq::empty(), blocks: 0 }),
{
    assert forall|q: int| !#[trigger] user_code_at(b, q) by {
        if user_code_at(b, q) {
            lemma_no_user_code(b, 0, q);
        }
    }
    lemma_no_code_no_unit(b);
    lemma_clean_stream_passes(s, b);
}

/// What a new filter makes of a stream that is fed to it in chunks and
/// finished, however it is cut: video and user_data are complementary parts of
/// the stream in its order. Where start codes do not overlap, the blocks are
/// the user_data start codes of the stream and the video holds none; where the
/// stream has none, the video is the stream.
pub proof fn lemma_filter_separates(chunks: Seq<Seq<u8>>)
    ensures
        ({
            let input = chunks.flatten();
            let out = fed_chunks(start_state(), Seq::empty(), chunks);
            let marks = route_of(start_state(), input);
            &&& marks.len() == input.len()
            &&& out.video == routed(input, marks, false)
            &&& out.user == routed(input, marks, true)
            &&& out.video.len() + out.user.len() == input.len()
            &&& codes_apart(input) ==> out.blocks == user_codes(input) && forall|q: int|
                !#[trigger] user_code_at(out.video, q)
            &&& user_codes(input) == 0 ==> out.video == input && out.user.len() == 0 && out.blocks
                == 0
        }),
{
    let none = Seq::<u8>::empty();
    let input = chunks.flatten();
    assert forall|q: int| !code_at(none, q) by {}
    lemma_no_code(none);
    lemma_chunking_is_irrelevant(start_state(), none, chunks);
    assert(none + input =~= input);
    lemma_outputs_share_the_stream(start_state(), input);
    lemma_bytes_conserved(start_state(), input);
    if codes_apart(input) {
        lemma_blocks_are_user_codes(start_state(), input);
        lemma_video_has_no_user_code(start_state(), input);
    }
    if user_codes(input) == 0 {
        lemma_stream_without_user_codes_passes(start_state(), input);
    }
}

/// Filtering the video a second time changes nothing.
pub proof fn lemma_filter_is_idempotent(s: FilterState, t: FilterState, b: Seq<u8>)
    requires
        !t.in_user,
    ensures
        split_stream(t, split_stream(s, b).video) == (Split {
            video: split_stream(s, b).video,
            user: Seq::empty(),
            blocks: 0,
        }),
{
    lemma_video_has_no_user_data(s, b);
    lemma_clean_stream_passes(t, split_stream(s, b).video);
}

/// The four body bytes of a group-of-pictures header always stay in the video,
/// zeros or not: when a user_data block follows, at least that many bytes of
/// the unit's body have been or are written there, or all that there are.
pub proof fn lemma_gop_body_kept(s: FilterState, prefix: Seq<u8>)
    requires
        !s.in_user,
        s.last_sc == 0xB8,
    ensures
        s.since + content_end(s, prefix, USER_DATA_CODE) >= min_int(4, (s.since + prefix.len()) as int),
{
    lemma_trailing_zeros(prefix);
}

/// Where a user_data block begins or ends, the zero stuffing before its start
/// code goes with the unit that follows: the bytes of the unit that ends do
/// not end in a zero, but for the mandatory body of a group-of-pictures header.
pub proof fn lemma_stuffing_follows(s: FilterState, prefix: Seq<u8>, v: u8)
    requires
        s.in_user != (v == USER_DATA_CODE),
    ensures
        ({
            let cut = content_end(s, prefix, v);
            &&& 0 <= cut <= prefix.len()
            &&& cut > 0 && prefix[cut - 1] == 0 ==> !s.in_user && s.last_sc == 0xB8 && s.since
                + cut <= 4
            &&& forall|i: int| cut <= i < prefix.len() ==> prefix[i] == 0
        }),
{
    lemma_trailing_zeros(prefix);
}

/// Frames per second as a fraction; `0/1` where the code is forbidden or
/// reserved, or where no code was seen.
#[derive(Debug, Clone, Copy, PartialEq, Eq, Structural)]
pub struct FrameRate {
    pub num: u32,
    pub den: u32,
}

/// The frame rates of MPEG-2 video by their code.
pub open spec fn frame_rate_of(code: u8) -> FrameRate {
    match code {
        1 => FrameRate { num: 24_000, den: 1001 },
        2 => FrameRate { num: 24, den: 1 },
        3 => FrameRate { num: 25, den: 1 },
        4 => FrameRate { num: 30_000, den: 1001 },
        5 => FrameRate { num: 30, den: 1 },
        6 => FrameRate { num: 50, den: 1 },
        7 => FrameRate { num: 60_000, den: 1001 },
        8 => FrameRate { num: 60, den: 1 },
        _ => FrameRate { num: 0, den: 1 },
    }
}

/// Frame rate for an MPEG-2 `frame_rate_code`.
pub fn frame_rate_from_code(code: u8) -> (r: FrameRate)
    ensures
        r == frame_rate_of(code),
{
    match code {
        1 => FrameRate { num: 24_000, den: 1001 },
        2 => FrameRate { num: 24, den: 1 },
        3 => FrameRate { num: 25, den: 1 },
        4 => FrameRate { num: 30_000, den: 1001 },
        5 => FrameRate { num: 30, den: 1 },
        6 => FrameRate { num: 50, den: 1 },
        7 => FrameRate { num: 60_000, den: 1001 },
        8 => FrameRate { num: 60, den: 1 },
        _ => FrameRate { num: 0, den: 1 },
    }
}

/// Timing facts from the head of an MPEG-2 video elementary stream.
#[derive(Debug, Clone, Copy, PartialEq, Eq, Structural)]
pub struct VideoStartInfo {
    /// Coded frame rate from the first `sequence_header`.
    pub frame_rate: FrameRate,
    /// B-frames that display before the first I-frame.
    pub leading_b_frames: u32,
}

/// Progress of the scan for the display start.
pub struct StartScan {
    /// The rate of the first sequence header, once it was seen.
    pub frame_rate: Option<FrameRate>,
    pub leading_b_fields: nat,
    pub seen_first_i: bool,
    pub done: bool,
    /// A leading B picture waits for its coding extension.
    pub pending_b: bool,
}

/// The scan before the first byte.
pub open spec fn start_scan() -> StartScan {
    StartScan {
        frame_rate: None,
        leading_b_fields: 0,
        seen_first_i: false,
        done: false,
        pending_b: false,
    }
}

/// What the start code at `i` adds to the scan. The first sequence header gives
/// the frame rate. A picture header behind the first I picture either is a
/// leading B or ends the run. A picture coding extension (id 8) counts the
/// waiting B: two fields for a frame picture, one for a field picture.
pub open spec fn scan_code(data: Seq<u8>, i: int, s: StartScan) -> StartScan {
    let value = data[i + 3];
    if value == 0xB3 {
        if s.frame_rate is None && i + 7 < data.len() {
            StartScan { frame_rate: Some(frame_rate_of((data[i + 7] % 16) as u8)), ..s }
        } else {
            s
        }
    } else if value == 0x00 {
        if s.done || i + 5 >= data.len() {
            StartScan { pending_b: false, ..s }
        } else {
            let coding_type = data[i + 5] / 8 % 8;
            StartScan {
                seen_first_i: s.seen_first_i || coding_type == 1,
                done: s.seen_first_i && coding_type != 3,
                pending_b: s.seen_first_i && coding_type == 3,
                ..s
            }
        }
    } else if value == 0xB5 {
        if s.pending_b && i + 6 < data.len() && data[i + 4] / 16 == 8 {
            StartScan {
                leading_b_fields: s.leading_b_fields + (if data[i + 6] % 4 == 3 {
                    2nat
                } else {
                    1nat
                }),
                pending_b: false,
                ..s
            }
        } else {
            s
        }
    } else {
        s
    }
}

/// The scan of every start code from `i` on, in order.
pub open spec fn scan_from(data: Seq<u8>, i: int, s: StartScan) -> StartScan
    decreases data.len() - i,
{
    if i + 3 >= data.len() {
        s
    } else if code_at(data, i) {
        scan_from(data, i + 1, scan_code(data, i, s))
    } else {
        scan_from(data, i + 1, s)
    }
}

/// What the whole of `data` says about the display start.
pub open spec fn scan_of(data: Seq<u8>) -> StartScan {
    scan_from(data, 0, start_scan())
}

proof fn lemma_scan_grows(data: Seq<u8>, i: int, s: StartScan)
    ensures
        s.leading_b_fields <= scan_from(data, i, s).leading_b_fields,
        0 <= i ==> scan_from(data, i, s).leading_b_fields <= s.leading_b_fields + 2 * max_int(
            0,
            data.len() - i,
        ),
    decreases data.len() - i,
{
    if i + 3 >= data.len() {
    } else if code_at(data, i) {
        lemma_scan_grows(data, i + 1, scan_code(data, i, s));
    } else {
        lemma_scan_grows(data, i + 1, s);
    }
}

/// A whole sequence header stands at `p`, up to its frame rate code.
pub open spec fn is_sequence_header(data: Seq<u8>, p: int) -> bool {
    code_at(data, p) && p + 7 < data.len() && data[p + 3] == 0xB3
}

proof fn lemma_rate_stays(data: Seq<u8>, i: int, s: StartScan)
    requires
        s.frame_rate is Some || forall|q: int| i <= q ==> !#[trigger] is_sequence_header(data, q),
    ensures
        scan_from(data, i, s).frame_rate == s.frame_rate,
    decreases data.len() - i,
{
    if i + 3 >= data.len() {
    } else if code_at(data, i) {
        assert(is_sequence_header(data, i) || scan_code(data, i, s).frame_rate == s.frame_rate);
        lemma_rate_stays(data, i + 1, scan_code(data, i, s));
    } else {
        lemma_rate_stays(data, i + 1, s);
    }
}

proof fn lemma_rate_found(data: Seq<u8>, i: int, p: int, s: StartScan)
    requires
        i <= p,
        is_sequence_header(data, p),
        forall|q: int| i <= q < p ==> !#[trigger] is_sequence_header(data, q),
        s.frame_rate is None,
    ensures
        scan_from(data, i, s).frame_rate == Some(frame_rate_of((data[p + 7] % 16) as u8)),
    decreases data.len() - i,
{
    if i == p {
        lemma_rate_stays(data, i + 1, scan_code(data, i, s));
    } else if code_at(data, i) {
        assert(!is_sequence_header(data, i));
        lemma_rate_found(data, i + 1, p, scan_code(data, i, s));
    } else {
        lemma_rate_found(data, i + 1, p, s);
    }
}

/// The frame rate is that of the first sequence header, also where its code is
/// reserved.
pub proof fn lemma_first_header_gives_rate(data: Seq<u8>, p: int)
    requires
        is_sequence_header(data, p),
        forall|q: int| 0 <= q < p ==> !#[trigger] is_sequence_header(data, q),
    ensures
        scan_of(data).frame_rate == Some(frame_rate_of((data[p + 7] % 16) as u8)),
{
    lemma_rate_found(data, 0, p, start_scan());
}

/// Without a sequence header there is no frame rate.
pub proof fn lemma_no_header_no_rate(data: Seq<u8>)
    requires
        forall|q: int| !#[trigger] is_sequence_header(data, q),
    ensures
        scan_of(data).frame_rate is None,
{
    lemma_rate_stays(data, 0, start_scan());
}

/// A stream of at most 2^31 - 1 bytes cannot count more fields than fit.
pub proof fn lemma_scan_fits(data: Seq<u8>)
    requires
        data.len() <= 0x7FFF_FFFF,
    ensures
        scan_of(data).leading_b_fields <= u32::MAX,
{
    lemma_scan_grows(data, 0, start_scan());
}

/// Scans the head of an MPEG-2 video elementary stream for the frame rate and
/// the number of B-frames that display before the first I-frame.
pub fn analyze_video_start(data: &[u8]) -> (info: VideoStartInfo)
    requires
        scan_of(data@).leading_b_fields <= u32::MAX,
    ensures
        info.frame_rate == (match scan_of(data@).frame_rate {
            Some(rate) => rate,
            None => FrameRate { num: 0, den: 1 },
        }),
        info.leading_b_frames == scan_of(data@).leading_b_fields / 2,
{
    let mut frame_rate: Option<FrameRate> = None;
    let mut leading_b_fields: u32 = 0;
    let mut seen_first_i = false;
    let mut done = false;
    let mut pending_b = false;
    let ghost mut s = start_scan();
    let mut i: usize = 0;
    while i < data.len() && data.len() - i > 3
        invariant
            i <= data.len(),
            s == (StartScan {
                frame_rate,
                leading_b_fields: leading_b_fields as nat,
                seen_first_i,
                done,
                pending_b,
            }),
            scan_of(data@) == scan_from(data@, i as int, s),
            scan_of(data@).leading_b_fields <= u32::MAX,
        decreases data.len() - i,
    {
        if !(data[i] == 0 && data[i + 1] == 0 && data[i + 2] == 1) {
            i = i + 1;
            continue;
        }
        assert(code_at(data@, i as int));
        let ghost next = scan_code(data@, i as int, s);
        proof {
            lemma_scan_grows(data@, i + 1, next);
        }
        let value: u8 = data[i + 3];
        let left: usize = data.len() - i;
        if value == 0xB3 {
            if frame_rate.is_none() && left > 7 {
                frame_rate = Some(frame_rate_from_code(data[i + 7] % 16));
            }
        } else if value == 0x00 {
            pending_b = false;
            if !done && left > 5 {
                let coding_type: u8 = data[i + 5] / 8 % 8;
                if coding_type == 1 {
                    if seen_first_i {
                        done = true;
                    } else {
                        seen_first_i = true;
                    }
                } else if seen_first_i {
                    if coding_type == 3 {
                        pending_b = true;
                    } else {
                        done = true;
                    }
                }
            }
        } else if value == 0xB5 {
            if pending_b && left > 6 && data[i + 4] / 16 == 8 {
                if data[i + 6] % 4 == 3 {
                    leading_b_fields = leading_b_fields + 2;
                } else {
                    leading_b_fields = leading_b_fields + 1;
                }
                pending_b = false;
            }
        }
        proof {
            s = next;
            assert(!code_at(data@, i + 1) && !code_at(data@, i + 2));
            reveal_with_fuel(scan_from, 4);
        }
        i = i + 3;
    }
    let frame_rate = match frame_rate {
        Some(rate) => rate,
        None => FrameRate { num: 0, den: 1 },
    };
    VideoStartInfo { frame_rate, leading_b_frames: leading_b_fields / 2 }
}

} // verus!
