use disc_remuxer::cell::{check_cell_walk, dvd_time_seconds, CellInfo};
use disc_remuxer::ifo::DvdTime;

fn time(h: u8, m: u8, s: u8) -> DvdTime {
    // Encode each component as packed BCD (e.g. 25 -> 0x25).
    let enc = |v: u8| -> u8 { ((v / 10) << 4) | (v % 10) };
    DvdTime {
        hour: enc(h),
        minute: enc(m),
        second: enc(s),
        frame_u: 0,
    }
}

fn cell(idx: u8, first: u32, last: u32) -> CellInfo {
    CellInfo {
        idx,
        first_sector: first,
        last_sector: last,
        block_count: last.saturating_sub(first).saturating_add(1),
        playback_time: time(0, 0, 0),
        block_mode: 0,
        block_type: 0,
        seamless_play: false,
        interleaved: false,
        stc_discontinuity: false,
        seamless_angle: false,
    }
}

#[test]
fn dvd_time_seconds_decodes_bcd() {
    assert_eq!(dvd_time_seconds(&time(1, 23, 45)), 3600 + 23 * 60 + 45);
}

#[test]
fn cell_playback_seconds_matches_dvd_time() {
    let c = CellInfo {
        playback_time: time(0, 12, 34),
        ..cell(0, 0, 0)
    };
    assert_eq!(c.playback_seconds(), 12 * 60 + 34);
}

#[test]
fn block_count_is_inclusive() {
    let c = cell(0, 100, 199);
    assert_eq!(c.block_count, 100);
}

#[test]
fn check_cell_walk_accepts_sequential_cells() {
    let c0 = cell(0, 0, 99);
    let c1 = cell(1, 100, 199);
    let file_blocks: u32 = 1_000;
    assert!(check_cell_walk(&c0, None, file_blocks));
    assert!(check_cell_walk(&c1, Some(&c0), file_blocks));
}

#[test]
fn check_cell_walk_flags_inverted_range() {
    let bad = cell(0, 200, 100);
    // saturating_sub makes block_count look low but the first-<=-last
    // check should fail.
    assert!(!check_cell_walk(&bad, None, 1_000));
}

#[test]
fn check_cell_walk_flags_out_of_file() {
    let c = cell(0, 0, 999);
    assert!(!check_cell_walk(&c, None, /* file_blocks */ 500));
}

#[test]
fn check_cell_walk_flags_overlapping_cells() {
    let c0 = cell(0, 0, 200);
    let c1 = cell(1, 100, 300);
    assert!(!check_cell_walk(&c1, Some(&c0), 1_000));
}
