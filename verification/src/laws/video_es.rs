//! Laws of the video filter and of the display start.
use vstd::prelude::*;
use crate::video_es::{
    code_at, codes_apart, commit_point, content_end, fed, first_code, first_whole_code, frame_rate_of, is_first_code,
    lemma_codes_apart_skip, lemma_some_code, lemma_trailing_zeros, route_of, scan_code, scan_from,
    scan_of, start_scan, state_after, trailing_zeros, FilterState, FrameRate, StartScan,
};

verus! {

/// A start code is two zeros and a one.
pub proof fn lemma_start_code_is_three_bytes(b: Seq<u8>, q: int)
    ensures
        code_at(b, q) <==> 0 <= q && q + 3 <= b.len() && b[q] == 0 && b[q + 1] == 0 && b[q + 2]
            == 1,
        first_code(b) matches Some(p) ==> code_at(b, p) && (code_at(b, q) ==> p <= q),
        first_code(b) is None ==> !code_at(b, q),
{
    if code_at(b, q) {
        lemma_some_code(b, q);
    }
    if let Some(p) = first_code(b) {
        assert(is_first_code(b, p));
    }
}

proof fn lemma_route_len(s: FilterState, b: Seq<u8>)
    ensures
        route_of(s, b).len() == b.len(),
    decreases b.len(),
{
    if let Some(p) = first_whole_code(b) {
        assert(is_first_code(b, p));
        lemma_trailing_zeros(b.take(p));
        lemma_route_len(state_after(s, b.take(p), b[p + 3]), b.skip(p + 4));
    }
}

/// The route behind a whole first code.
proof fn lemma_route_step(s: FilterState, b: Seq<u8>, p: int, i: int)
    requires
        first_whole_code(b) == Some(p),
        0 <= i < b.len(),
    ensures
        is_first_code(b, p),
        p + 4 <= b.len(),
        ({
            let v = b[p + 3];
            let cut = content_end(s, b.take(p), v);
            &&& 0 <= cut <= p
            &&& i < cut ==> route_of(s, b)[i] == s.in_user
            &&& cut <= i < p + 4 ==> route_of(s, b)[i] == (v == 0xB2)
            &&& i >= p + 4 ==> route_of(s, b)[i] == route_of(
                state_after(s, b.take(p), v),
                b.skip(p + 4),
            )[i - p - 4]
        }),
{
    assert(is_first_code(b, p));
    lemma_trailing_zeros(b.take(p));
    lemma_route_len(s, b);
}

/// Before the first start code everything up to a byte that is not zero goes
/// where the stream stood.
proof fn lemma_route_head(s: FilterState, b: Seq<u8>, i: int, j: int)
    requires
        0 <= i <= j < b.len(),
        b[j] != 0,
        forall|r: int| 0 <= r <= j ==> !code_at(b, r),
    ensures
        route_of(s, b).len() == b.len(),
        route_of(s, b)[i] == s.in_user,
{
    lemma_route_len(s, b);
    if let Some(p) = first_whole_code(b) {
        lemma_route_step(s, b, p, i);
        lemma_trailing_zeros(b.take(p));
        assert(p > j);
        assert(b.take(p)[j] != 0);
    }
}

/// Where start codes do not overlap, the bytes of a start code, and all bytes
/// behind it up to any byte that is not zero and no start code between, go
/// together: to the user_data where the code is `00 00 01 B2`, to the video for
/// every other.
pub proof fn lemma_unit_goes_with_its_code(s: FilterState, b: Seq<u8>, q: int, i: int, j: int)
    requires
        codes_apart(b),
        code_at(b, q),
        q + 4 <= b.len(),
        q <= i < b.len(),
        i <= q + 3 || (i <= j < b.len() && b[j] != 0 && forall|r: int|
            q < r <= j ==> !#[trigger] code_at(b, r)),
    ensures
        route_of(s, b).len() == b.len(),
        route_of(s, b)[i] == (b[q + 3] == 0xB2),
    decreases b.len(),
{
    lemma_route_len(s, b);
    lemma_some_code(b, q);
    let p = first_code(b)->0;
    assert(first_whole_code(b) == Some(p));
    lemma_route_step(s, b, p, i);
    let v = b[p + 3];
    let st = state_after(s, b.take(p), v);
    let c = b.skip(p + 4);
    assert(code_at(b, p));
    if p < q {
        assert(!code_at(b, p + 3));
        lemma_codes_apart_skip(b, p + 4);
        let k = p + 4;
        assert(code_at(c, q - k));
        if i > q + 3 {
            assert forall|r: int| q - k < r <= j - k implies !#[trigger] code_at(c, r) by {
                assert(!code_at(b, r + k));
            }
        }
        lemma_unit_goes_with_its_code(st, c, q - k, i - k, j - k);
    } else if i > q + 3 {
        let k = p + 4;
        assert forall|r: int| 0 <= r <= j - k implies !code_at(c, r) by {
            assert(!code_at(b, r + k));
        }
        lemma_route_head(st, c, i - k, j - k);
    }
}

/// What follows the last whole start code goes with it, to the end.
pub proof fn lemma_last_unit_goes_with_its_code(s: FilterState, b: Seq<u8>, q: int, i: int)
    requires
        codes_apart(b),
        code_at(b, q),
        q + 4 <= b.len(),
        q <= i < b.len(),
        forall|r: int| q < r && r + 4 <= b.len() ==> !#[trigger] code_at(b, r),
    ensures
        route_of(s, b)[i] == (b[q + 3] == 0xB2),
    decreases b.len(),
{
    lemma_some_code(b, q);
    let p = first_code(b)->0;
    lemma_route_step(s, b, p, i);
    let v = b[p + 3];
    let st = state_after(s, b.take(p), v);
    let c = b.skip(p + 4);
    let k = p + 4;
    assert(code_at(b, p));
    if p < q {
        assert(!code_at(b, p + 3));
        lemma_codes_apart_skip(b, p + 4);
        assert(code_at(c, q - k));
        assert forall|r: int| q - k < r && r + 4 <= c.len() implies !#[trigger] code_at(c, r) by {
            assert(!code_at(b, r + k));
        }
        lemma_last_unit_goes_with_its_code(st, c, q - k, i - k);
    } else if i > q + 3 {
        assert(first_whole_code(c) is None) by {
            if let Some(r) = first_whole_code(c) {
                assert(is_first_code(c, r));
                assert(code_at(b, r + k));
            }
        }
    }
}

/// Bytes before the first start code, up to any byte that is not zero, belong
/// to the video of a new stream.
pub proof fn lemma_stream_begins_with_video(s: FilterState, b: Seq<u8>, i: int, j: int)
    requires
        !s.in_user,
        0 <= i <= j < b.len(),
        b[j] != 0,
        forall|r: int| 0 <= r <= j ==> !code_at(b, r),
    ensures
        route_of(s, b).len() == b.len(),
        !route_of(s, b)[i],
{
    lemma_route_head(s, b, i, j);
}

/// Zeros right before a start code go with that code, except the first four
/// bytes behind a group-of-pictures code, which stay in the video.
pub proof fn lemma_stuffing_goes_with_the_next_code(
    s: FilterState,
    b: Seq<u8>,
    q: int,
    p: int,
    i: int,
)
    requires
        codes_apart(b),
        code_at(b, q),
        code_at(b, p),
        q + 4 <= p,
        p + 4 <= b.len(),
        forall|r: int| q < r < p ==> !#[trigger] code_at(b, r),
        q + 4 <= i < p,
        forall|k: int| i <= k < p ==> #[trigger] b[k] == 0,
    ensures
        b[q + 3] != 0xB8 || i >= q + 8 || b[p + 3] != 0xB2 ==> route_of(s, b)[i] == (b[p + 3]
            == 0xB2),
        b[q + 3] == 0xB8 && i < q + 8 ==> !route_of(s, b)[i],
    decreases b.len(),
{
    lemma_some_code(b, q);
    let f = first_code(b)->0;
    lemma_route_step(s, b, f, i);
    let v = b[f + 3];
    let st = state_after(s, b.take(f), v);
    let c = b.skip(f + 4);
    let k = f + 4;
    assert(code_at(b, f));
    if f < q {
        assert(!code_at(b, f + 3));
        lemma_codes_apart_skip(b, f + 4);
        assert(code_at(c, q - k));
        assert(code_at(c, p - k));
        assert forall|r: int| q - k < r < p - k implies !#[trigger] code_at(c, r) by {
            assert(!code_at(b, r + k));
        }
        assert forall|n: int| i - k <= n < p - k implies #[trigger] c[n] == 0 by {
            assert(b[n + k] == 0);
        }
        lemma_stuffing_goes_with_the_next_code(st, c, q - k, p - k, i - k);
    } else {
        let n = p - k;
        assert(code_at(c, n));
        assert forall|r: int| 0 <= r < n implies !code_at(c, r) by {
            assert(!code_at(b, r + k));
        }
        assert(is_first_code(c, n));
        crate::video_es::lemma_first_code(c, n);
        lemma_route_step(st, c, n, i - k);
        let prefix = c.take(n);
        lemma_trailing_zeros(prefix);
        assert(trailing_zeros(prefix) >= n - (i - k)) by {
            let z = trailing_zeros(prefix);
            if z < n - (i - k) {
                assert(prefix[n - z - 1] == b[n - z - 1 + k]);
            }
        }
    }
}

/// A feed holds back little: the last three bytes at most, and whatever zeros
/// stand right before them.
pub proof fn lemma_little_is_held_back(s: FilterState, b: Seq<u8>, i: int)
    ensures
        ({
            let tail = fed(s, b).tail;
            &&& tail.len() <= b.len()
            &&& tail == b.subrange(b.len() - tail.len(), b.len() as int)
            &&& 0 <= i < tail.len() - 3 ==> tail[i] == 0
        }),
    decreases b.len(),
{
    match first_whole_code(b) {
        Some(p) => {
            assert(is_first_code(b, p));
            let c = b.skip(p + 4);
            let st = state_after(s, b.take(p), b[p + 3]);
            lemma_little_is_held_back(st, c, i);
            let tail = fed(st, c).tail;
            assert(c.subrange(c.len() - tail.len(), c.len() as int) =~= b.subrange(
                b.len() - tail.len(),
                b.len() as int,
            ));
        },
        None => {
            let n = commit_point(b);
            lemma_trailing_zeros(b);
            if let Some(p) = first_code(b) {
                assert(is_first_code(b, p));
                lemma_trailing_zeros(b.take(p));
                let z = trailing_zeros(b.take(p)) as int;
                assert(p + 3 == b.len());
                if 0 <= i < z {
                    assert(b.take(p)[p - z + i] == 0);
                }
            }
            assert(b.skip(n) =~= b.subrange(n, b.len() as int));
        },
    }
}

/// A picture header at `i`, with its coding type.
pub open spec fn picture_at(data: Seq<u8>, i: int, coding_type: int) -> bool {
    &&& 0 <= i
    &&& i + 5 < data.len()
    &&& data[i] == 0 && data[i + 1] == 0 && data[i + 2] == 1 && data[i + 3] == 0
    &&& data[i + 5] as int / 8 % 8 == coding_type
}

proof fn lemma_what_follows(d: Seq<u8>, e: Seq<u8>, i: int, p: int, s: StartScan)
    requires
        0 <= i <= p,
        p + 6 <= d.len(),
        p + 6 <= e.len(),
        forall|k: int| 0 <= k < p + 6 ==> d[k] == e[k],
        d[p] == 0 && d[p + 1] == 0 && d[p + 2] == 1 && d[p + 3] == 0,
        d[p + 5] as int / 8 % 8 != 3,
        s.done || s.seen_first_i || exists|q: int| i <= q < p && #[trigger] picture_at(d, q, 1),
    ensures
        scan_from(d, i, s).leading_b_fields == scan_from(e, i, s).leading_b_fields,
    decreases p - i,
{
    if i == p {
        assert(code_at(d, p) && code_at(e, p));
        let next = scan_code(d, p, s);
        assert(next == scan_code(e, p, s));
        assert(next.done && !next.pending_b);
        lemma_run_is_over(d, p + 1, next);
        lemma_run_is_over(e, p + 1, next);
    } else {
        assert(code_at(d, i) == code_at(e, i)) by {
            if i + 2 < p + 6 {
                assert(d[i] == e[i] && d[i + 1] == e[i + 1] && d[i + 2] == e[i + 2]);
            }
        }
        if code_at(d, i) {
            let next = scan_code(d, i, s);
            assert(i != p - 1 && i != p - 2) by {
                assert(d[p] == 0 && d[p + 1] == 0);
            }
            assert(next.leading_b_fields == scan_code(e, i, s).leading_b_fields);
            assert(next.done == scan_code(e, i, s).done);
            assert(next.seen_first_i == scan_code(e, i, s).seen_first_i);
            assert(next.pending_b == scan_code(e, i, s).pending_b);
            assert(next.frame_rate == scan_code(e, i, s).frame_rate);
            if !s.done && !s.seen_first_i {
                let q = choose|q: int| i <= q < p && #[trigger] picture_at(d, q, 1);
                if q > i {
                    assert(i + 1 <= q < p && picture_at(d, q, 1));
                }
            }
            lemma_what_follows(d, e, i + 1, p, next);
        } else {
            if !s.done && !s.seen_first_i {
                let q = choose|q: int| i <= q < p && #[trigger] picture_at(d, q, 1);
                assert(q > i);
                assert(i + 1 <= q < p && picture_at(d, q, 1));
            }
            lemma_what_follows(d, e, i + 1, p, s);
        }
    }
}

proof fn lemma_run_is_over(data: Seq<u8>, i: int, s: StartScan)
    requires
        s.done,
        !s.pending_b,
    ensures
        scan_from(data, i, s).leading_b_fields == s.leading_b_fields,
    decreases data.len() - i,
{
    if i + 3 >= data.len() {
    } else if code_at(data, i) {
        lemma_run_is_over(data, i + 1, scan_code(data, i, s));
    } else {
        lemma_run_is_over(data, i + 1, s);
    }
}

/// The run of leading B pictures ends with the first picture behind the first I
/// that is no B: whatever follows that picture makes no difference to the
/// count.
pub proof fn lemma_count_ends_with_the_run(d: Seq<u8>, e: Seq<u8>, first_i: int, p: int)
    requires
        0 <= first_i < p,
        p + 6 <= d.len(),
        p + 6 <= e.len(),
        forall|k: int| 0 <= k < p + 6 ==> d[k] == e[k],
        d[first_i] == 0 && d[first_i + 1] == 0 && d[first_i + 2] == 1 && d[first_i + 3] == 0,
        d[first_i + 5] as int / 8 % 8 == 1,
        d[p] == 0 && d[p + 1] == 0 && d[p + 2] == 1 && d[p + 3] == 0,
        d[p + 5] as int / 8 % 8 != 3,
    ensures
        scan_of(d).leading_b_fields == scan_of(e).leading_b_fields,
{
    assert(picture_at(d, first_i, 1));
    lemma_what_follows(d, e, 0, p, start_scan());
}

proof fn lemma_nothing_before_i(data: Seq<u8>, i: int, s: StartScan)
    requires
        0 <= i,
        !s.seen_first_i,
        !s.pending_b,
        forall|q: int| i <= q ==> !#[trigger] picture_at(data, q, 1),
    ensures
        scan_from(data, i, s).leading_b_fields == s.leading_b_fields,
    decreases data.len() - i,
{
    if i + 3 >= data.len() {
    } else if code_at(data, i) {
        assert(!picture_at(data, i, 1));
        lemma_nothing_before_i(data, i + 1, scan_code(data, i, s));
    } else {
        lemma_nothing_before_i(data, i + 1, s);
    }
}

/// Without an I picture nothing is counted.
pub proof fn lemma_no_i_no_count(data: Seq<u8>)
    requires
        forall|q: int| 0 <= q && q + 5 < data.len() ==> !(#[trigger] data[q] == 0 && data[q + 1] == 0
            && data[q + 2] == 1 && data[q + 3] == 0 && data[q + 5] as int / 8 % 8 == 1),
    ensures
        scan_of(data).leading_b_fields == 0,
{
    assert forall|q: int| 0 <= q implies !#[trigger] picture_at(data, q, 1) by {
        if q + 5 < data.len() {
            assert(data[q] == 0 || data[q] != 0);
        }
    }
    lemma_nothing_before_i(data, 0, start_scan());
}

proof fn lemma_no_code_between(data: Seq<u8>, i: int, j: int, s: StartScan)
    requires
        0 <= i <= j,
        j + 3 < data.len(),
        forall|r: int| i <= r < j ==> !#[trigger] code_at(data, r),
    ensures
        scan_from(data, i, s) == scan_from(data, j, s),
    decreases j - i,
{
    if i < j {
        assert(!code_at(data, i));
        lemma_no_code_between(data, i + 1, j, s);
    }
}

/// In the run behind the first I, a B picture with its coding extension counts
/// two fields where the extension says frame, one where it says field.
pub proof fn lemma_b_picture_counts(data: Seq<u8>, i: int, j: int, s: StartScan)
    requires
        s.seen_first_i,
        !s.done,
        0 <= i < j,
        j + 6 < data.len(),
        data[i] == 0 && data[i + 1] == 0 && data[i + 2] == 1 && data[i + 3] == 0,
        data[i + 5] as int / 8 % 8 == 3,
        data[j] == 0 && data[j + 1] == 0 && data[j + 2] == 1 && data[j + 3] == 0xB5,
        data[j + 4] / 16 == 8,
        forall|r: int| i < r < j ==> !#[trigger] code_at(data, r),
    ensures
        ({
            let fields: nat = if data[j + 6] % 4 == 3 {
                2
            } else {
                1
            };
            scan_from(data, i, s) == scan_from(
                data,
                j + 1,
                StartScan { leading_b_fields: s.leading_b_fields + fields, pending_b: false, ..s },
            )
        }),
{
    assert(code_at(data, i) && code_at(data, j));
    let waiting = scan_code(data, i, s);
    assert(waiting == (StartScan { pending_b: true, ..s }));
    lemma_no_code_between(data, i + 1, j, waiting);
}

/// The first I picture starts the run, and a picture that is neither counts for
/// nothing before it.
pub proof fn lemma_first_i_starts_the_run(data: Seq<u8>, i: int, s: StartScan)
    requires
        !s.seen_first_i,
        !s.done,
        0 <= i,
        i + 5 < data.len(),
        data[i] == 0 && data[i + 1] == 0 && data[i + 2] == 1 && data[i + 3] == 0,
    ensures
        scan_from(data, i, s) == scan_from(
            data,
            i + 1,
            StartScan { seen_first_i: data[i + 5] as int / 8 % 8 == 1, pending_b: false, ..s },
        ),
{
    assert(code_at(data, i));
}

/// The scan starts with nothing seen, and goes through the data from its first
/// byte. Codes other than picture headers, sequence headers and extensions are
/// passed over.
pub proof fn lemma_scan_starts_with_nothing(data: Seq<u8>, i: int, s: StartScan)
    requires
        0 <= i,
        i + 3 < data.len(),
    ensures
        scan_of(data) == scan_from(
            data,
            0,
            StartScan {
                frame_rate: None,
                leading_b_fields: 0,
                seen_first_i: false,
                done: false,
                pending_b: false,
            },
        ),
        !(data[i] == 0 && data[i + 1] == 0 && data[i + 2] == 1) || (data[i + 3] != 0 && data[i + 3]
            != 0xB3 && data[i + 3] != 0xB5) ==> scan_from(data, i, s) == scan_from(data, i + 1, s),
        !s.pending_b && data[i + 3] == 0xB5 ==> scan_from(data, i, s) == scan_from(data, i + 1, s),
{
}

/// Frame rates by their code: each is the given number of frames in so many
/// seconds.
pub proof fn lemma_frame_rates(code: u8)
    ensures
        frame_rate_of(code).num == 0 <==> code == 0 || code > 8,
        frame_rate_of(code).den > 0,
        code == 1 ==> frame_rate_of(code).num * 1001 == 24_000 * frame_rate_of(code).den,
        code == 2 ==> frame_rate_of(code).num == 24 * frame_rate_of(code).den,
        code == 3 ==> frame_rate_of(code).num == 25 * frame_rate_of(code).den,
        code == 4 ==> frame_rate_of(code).num * 1001 == 30_000 * frame_rate_of(code).den,
        code == 5 ==> frame_rate_of(code).num == 30 * frame_rate_of(code).den,
        code == 6 ==> frame_rate_of(code).num == 50 * frame_rate_of(code).den,
        code == 7 ==> frame_rate_of(code).num * 1001 == 60_000 * frame_rate_of(code).den,
        code == 8 ==> frame_rate_of(code).num == 60 * frame_rate_of(code).den,
{
}

} // verus!
