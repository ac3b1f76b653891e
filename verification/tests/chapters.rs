use disc_remuxer::chapters::{dvd_time_to_nanos, format_timecode, stable_uid};
use disc_remuxer::ifo::DvdTime;

#[test]
fn dvd_time_zero_is_zero() {
    let t = DvdTime {
        hour: 0,
        minute: 0,
        second: 0,
        frame_u: 0,
    };
    assert_eq!(dvd_time_to_nanos(&t), 0);
}

#[test]
fn dvd_time_ntsc_frame_arithmetic() {
    // 15 frames at NTSC = 15 * 1001 / 30000 sec = 0.5005 sec
    let t = DvdTime {
        hour: 0,
        minute: 0,
        second: 0,
        frame_u: 15 | (0b11 << 6),
    };
    assert_eq!(dvd_time_to_nanos(&t), 15 * 1001 * 1_000_000_000 / 30000);
}

#[test]
fn dvd_time_pal_frame_arithmetic() {
    // 5 frames at PAL = 5 * 40ms = 200_000_000 ns
    let t = DvdTime {
        hour: 0,
        minute: 0,
        second: 0,
        frame_u: 5 | (0b01 << 6),
    };
    assert_eq!(dvd_time_to_nanos(&t), 200_000_000);
}

#[test]
fn format_timecode_examples() {
    assert_eq!(format_timecode(0), "00:00:00.000000000");
    assert_eq!(format_timecode(1_000_000_000), "00:00:01.000000000");
    assert_eq!(
        format_timecode(3 * 3600 * 1_000_000_000 + 4 * 60 * 1_000_000_000 + 5 * 1_000_000_000 + 123_456_789),
        "03:04:05.123456789"
    );
}

#[test]
fn stable_uid_is_deterministic_and_distinct() {
    assert_eq!(stable_uid(1), stable_uid(1));
    assert_ne!(stable_uid(1), stable_uid(2));
    assert_ne!(stable_uid(0), 0);
}

#[test]
fn dvd_time_frames_are_bcd() {
    let t = DvdTime { hour: 0, minute: 0, second: 0, frame_u: 0x50 };
    assert_eq!(dvd_time_to_nanos(&t), 400_000_000);
    let t = DvdTime { hour: 0x01, minute: 0x10, second: 0x09, frame_u: 0xE9 };
    assert_eq!(dvd_time_to_nanos(&t), 4_209_000_000_000 + 29 * 1001 * 1_000_000_000 / 30000);
}
