use abootimg_oxide::{OsPatch, OsVersion, OsVersionPatch};

#[test]
fn test() {
    let vp = OsVersionPatch(402653574);
    assert_eq!(vp.debug_string(), "OsVersionPatch(12.0.0, 2024-06)");
    assert_eq!(vp.version().to_string(), "12.0.0");
    assert_eq!(vp.patch().to_string(), "2024-06");
    assert_eq!(vp, OsVersionPatch::new(vp.version(), vp.patch()));
    assert_eq!(vp.version(), OsVersion::new(12, 0, 0));
    assert_eq!(vp.patch(), OsPatch::new(2024, 6));
}

#[test]
fn known_vector_projections() {
    let vp = OsVersionPatch(402653574);
    assert_eq!(vp.version().version_parts(), (12, 0, 0));
    assert_eq!(vp.patch().year(), 2024);
    assert_eq!(vp.patch().month(), 6);
}

#[test]
fn pack_exact_word() {
    let v = OsVersion::new(12, 0, 0);
    let p = OsPatch::new(2024, 6);
    assert_eq!(OsVersionPatch::new(v, p).0, (12 << 25) | (24 << 4) | 6);
    let v = OsVersion::new(1, 2, 3);
    let p = OsPatch::new(2001, 12);
    assert_eq!(OsVersionPatch::new(v, p).0, (1 << 25) | (2 << 18) | (3 << 11) | (1 << 4) | 12);
}

#[test]
fn version_patch_round_trip_corners() {
    for &(a, b, c) in &[(0u8, 0u8, 0u8), (127, 127, 127), (1, 0, 127), (127, 0, 1), (9, 10, 11)] {
        for &(year, month) in &[(2000u16, 1u8), (2127, 12), (2024, 6), (2100, 9)] {
            let v = OsVersion::new(a, b, c);
            let p = OsPatch::new(year, month);
            let vp = OsVersionPatch::new(v, p);
            assert_eq!(vp.version(), v);
            assert_eq!(vp.patch(), p);
            assert_eq!(vp.version().version_parts(), (a, b, c));
            assert_eq!(vp.patch().year(), year);
            assert_eq!(vp.patch().month(), month);
        }
    }
}

#[test]
fn patch_alone_keeps_late_years() {
    let p = OsPatch::new(2000 + 4095, 12);
    assert_eq!(p.year(), 6095);
    assert_eq!(p.month(), 12);
    let p = OsPatch::new(2128, 1);
    assert_eq!(p.year(), 2128);
}

#[test]
fn zero_word_is_unspecified() {
    let vp = OsVersionPatch(0);
    assert_eq!(vp.version().version_parts(), (0, 0, 0));
    assert_eq!(vp.patch().year(), 2000);
    assert_eq!(vp.patch().month(), 0);
    assert_eq!(vp.version().to_string(), "0.0.0");
    assert_eq!(vp.patch().to_string(), "2000-00");
    assert_eq!(vp.debug_string(), "OsVersionPatch(0.0.0, 2000-00)");
}

#[test]
fn text_rendering() {
    assert_eq!(OsVersion::new(127, 100, 9).to_string(), "127.100.9");
    assert_eq!(OsVersion::new(10, 0, 0).to_string(), "10.0.0");
    assert_eq!(OsPatch::new(2019, 11).to_string(), "2019-11");
    assert_eq!(OsPatch::new(2005, 1).to_string(), "2005-01");
    let mut out = vec![b'>'];
    OsVersion::new(4, 5, 6).write_text(&mut out);
    out.push(b' ');
    OsPatch::new(2010, 3).write_text(&mut out);
    out.push(b' ');
    OsVersionPatch(402653574).write_text(&mut out);
    assert_eq!(out, b">4.5.6 2010-03 OsVersionPatch(12.0.0, 2024-06)".to_vec());
}

#[test]
fn all_ones_word() {
    let vp = OsVersionPatch(u32::MAX);
    assert_eq!(vp.version().version_parts(), (127, 127, 127));
    assert_eq!(vp.patch().year(), 2127);
    assert_eq!(vp.patch().month(), 15);
    assert_eq!(OsVersionPatch::new(vp.version(), vp.patch()), vp);
}
