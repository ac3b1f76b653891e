use disc_remuxer::detect::{detect_disc_type, DiscType, PathFacts};
use disc_remuxer::error::DiscError;

fn directory() -> PathFacts {
    PathFacts {
        exists: true,
        is_dir: true,
        is_file: false,
        vmg_in_subdir: false,
        vmg_at_root: false,
        has_bdmv: false,
        extension: None,
        is_device: false,
    }
}

#[test]
fn detects_video_ts_subdir() {
    let facts = PathFacts { vmg_in_subdir: true, ..directory() };
    assert_eq!(detect_disc_type("/d", &facts).unwrap(), DiscType::Dvd);
    let root = PathFacts { vmg_at_root: true, has_bdmv: true, ..directory() };
    assert_eq!(detect_disc_type("/d", &root).unwrap(), DiscType::Dvd);
}

#[test]
fn detects_bdmv_dir() {
    let facts = PathFacts { has_bdmv: true, ..directory() };
    assert_eq!(detect_disc_type("/d", &facts).unwrap(), DiscType::Bluray);
}

#[test]
fn rejects_unknown_dir() {
    let err = detect_disc_type("/d", &directory()).unwrap_err();
    assert!(matches!(err, DiscError::UnknownDiscType(_)));
    assert_eq!(
        err.message(),
        "disc type at /d is not recognized (no VIDEO_TS/, BDMV/, or recognized image found)"
    );
}

#[test]
fn rejects_missing_path() {
    let facts = PathFacts { exists: false, is_dir: false, ..directory() };
    let err = detect_disc_type("/does/not/exist/abc123", &facts).unwrap_err();
    assert!(matches!(&err, DiscError::PathNotFound(_)));
    assert_eq!(err.message(), "path does not exist: /does/not/exist/abc123");
}

#[test]
fn detects_images_and_devices() {
    let image = |ext: &str| PathFacts {
        is_dir: false,
        is_file: true,
        extension: Some(ext.to_string()),
        ..directory()
    };
    assert_eq!(detect_disc_type("a.ISO", &image("ISO")).unwrap(), DiscType::Dvd);
    assert_eq!(detect_disc_type("a.img", &image("img")).unwrap(), DiscType::Dvd);
    assert!(detect_disc_type("a.bin", &image("bin")).is_err());
    let device = PathFacts { is_dir: false, is_device: true, ..directory() };
    assert_eq!(detect_disc_type("/dev/sr0", &device).unwrap(), DiscType::Dvd);
    assert_eq!(DiscType::UltraHd.as_str(), "UHD Blu-ray");
}
