use disc_remuxer::video_es::{
    analyze_video_start, frame_rate_from_code, FrameRate, UserDataFilter,
};

fn split(chunks: &[&[u8]]) -> (Vec<u8>, Vec<u8>, u64) {
    let mut f = UserDataFilter::default();
    let (mut v, mut u) = (Vec::new(), Vec::new());
    for c in chunks {
        f.feed(c, &mut v, &mut u);
    }
    let s = f.finish(&mut v, &mut u);
    assert_eq!(s.video_bytes as usize, v.len());
    assert_eq!(s.user_data_bytes as usize, u.len());
    (v, u, s.user_data_blocks)
}

/// Streams over a small alphabet that is rich in start codes.
fn streams() -> Vec<Vec<u8>> {
    let mut seed: u32 = 12345;
    let mut out = Vec::new();
    for n in 0..400usize {
        let mut s = Vec::new();
        for _ in 0..(n % 60) {
            seed = seed.wrapping_mul(1_103_515_245).wrapping_add(12345);
            s.push([0, 0, 0, 1, 0xB2, 0xB8, 7][(seed >> 16) as usize % 7]);
        }
        out.push(s);
    }
    out
}

#[test]
fn chunking_makes_no_difference() {
    for s in streams() {
        let whole = split(&[&s]);
        for at in 0..=s.len() {
            assert_eq!(split(&[&s[..at], &s[at..]]), whole, "{s:?} at {at}");
        }
        let bytes: Vec<&[u8]> = s.chunks(1).collect();
        assert_eq!(split(&bytes), whole);
    }
}

#[test]
fn no_byte_is_lost() {
    for s in streams() {
        let (v, u, _) = split(&[&s]);
        let mut both = v.clone();
        both.extend_from_slice(&u);
        both.sort();
        let mut want = s.clone();
        want.sort();
        assert_eq!(both, want);
    }
}

/// Whether `all` can be dealt out to `v` and `u` in order.
fn is_dealt(all: &[u8], v: &[u8], u: &[u8]) -> bool {
    // reach[i]: the bytes so far can be the first i of v and the others of u.
    let mut reach = vec![false; v.len() + 1];
    reach[0] = true;
    for (n, b) in all.iter().enumerate() {
        let mut next = vec![false; v.len() + 1];
        for i in 0..=v.len().min(n) {
            if reach[i] {
                if i < v.len() && v[i] == *b {
                    next[i + 1] = true;
                }
                if n - i < u.len() && u[n - i] == *b {
                    next[i] = true;
                }
            }
        }
        reach = next;
    }
    v.len() + u.len() == all.len() && reach[v.len()]
}

#[test]
fn outputs_keep_the_order() {
    assert!(is_dealt(b"abcd", b"ad", b"bc"));
    assert!(!is_dealt(b"abcd", b"da", b"bc"));
    for s in streams() {
        let (v, u, _) = split(&[&s]);
        assert!(is_dealt(&s, &v, &u), "{s:?}");
    }
}

fn positions(b: &[u8], code: &[u8]) -> usize {
    b.windows(code.len()).filter(|w| *w == code).count()
}

#[test]
fn blocks_are_the_user_codes() {
    let mut seen = 0;
    for s in streams() {
        if positions(&s, &[0, 0, 1, 0, 0, 1]) > 0 {
            continue;
        }
        let (v, u, blocks) = split(&[&s]);
        let n = positions(&s, &[0, 0, 1, 0xB2]);
        assert_eq!(blocks as usize, n, "{s:?}");
        assert_eq!(positions(&v, &[0, 0, 1, 0xB2]), 0, "{s:?}");
        if n == 0 {
            assert_eq!((v, u), (s.clone(), Vec::new()));
        }
        seen += n;
    }
    assert!(seen > 0);
    // A code in the value byte of another is not seen.
    let (v, _, blocks) = split(&[b"\x00\x00\x01\x00\x00\x01\xB2X"]);
    assert_eq!((v.len(), blocks), (8, 0));
}

#[test]
fn filtering_twice_is_filtering_once() {
    for s in streams() {
        let (v, _, _) = split(&[&s]);
        assert_eq!(split(&[&v]), (v.clone(), Vec::new(), 0), "{s:?}");
    }
}

#[test]
fn counters_while_feeding() {
    let mut f = UserDataFilter::new();
    let (mut v, mut u) = (Vec::new(), Vec::new());
    f.feed(b"\x00\x00\x01\xB3SEQ\x00\x00\x01\xB2CC\x00\x00\x01\xB2", &mut v, &mut u);
    assert_eq!((f.video_bytes, f.user_data_bytes, f.user_data_blocks), (7, 10, 1));
}

#[test]
fn frame_rates() {
    assert_eq!(frame_rate_from_code(3), FrameRate { num: 25, den: 1 });
    assert_eq!(frame_rate_from_code(7), FrameRate { num: 60_000, den: 1001 });
    assert_eq!(frame_rate_from_code(9), FrameRate { num: 0, den: 1 });
    let info = analyze_video_start(b"");
    assert_eq!((info.frame_rate.num, info.leading_b_frames), (0, 0));
    // The first header counts, also with a reserved code.
    let info = analyze_video_start(b"\x00\x00\x01\xB3\x00\x00\x00\x10\x00\x00\x01\xB3\x00\x00\x00\x13");
    assert_eq!(info.frame_rate, FrameRate { num: 0, den: 1 });
    let info = analyze_video_start(b"\x00\x00\x01\xB3\x00\x00\x00\x13\x00\x00\x01\xB3\x00\x00\x00\x15");
    assert_eq!(info.frame_rate, FrameRate { num: 25, den: 1 });
}
