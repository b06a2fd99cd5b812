use mwa_hyperdrive::uvfits::{
    decode_uvfits_baseline, encode_uvfits_baseline, get_truncated_date_string,
    truncated_date_string, TaiEpoch,
};

#[test]
fn test_get_truncated_date_str() {
    let mjd = 56580.575370370374;
    let mjd_seconds = mjd * 24.0 * 3600.0;
    // The number of seconds between 1858-11-17T00:00:00 (MJD epoch) and
    // 1900-01-01T00:00:00 (TAI epoch) is 1297728000.
    let epoch_diff = 1297728000.0;
    let epoch = hifitime::Epoch::from_tai_seconds(mjd_seconds - epoch_diff);
    let (centuries, nanoseconds) = epoch.to_tai_parts();
    let epoch = TaiEpoch { centuries, nanoseconds };
    assert_eq!(get_truncated_date_string(&epoch), "2013-10-15T00:00:00.0");
}

#[test]
fn test_encode_uvfits_baseline() {
    assert_eq!(encode_uvfits_baseline(1, 1), 257);
}

#[test]
fn test_decode_uvfits_baseline() {
    assert_eq!(decode_uvfits_baseline(257), (1, 1));
}

#[test]
fn encode_uses_the_extended_convention_above_255() {
    assert_eq!(encode_uvfits_baseline(1, 256), 2048 + 256 + 65_536);
    assert_eq!(encode_uvfits_baseline(300, 1000), 300 * 2048 + 1000 + 65_536);
    assert_eq!(encode_uvfits_baseline(255, 255), 65_535);
}

#[test]
fn decode_extended_baselines() {
    assert_eq!(decode_uvfits_baseline(2048 + 256 + 65_536), (1, 256));
    assert_eq!(decode_uvfits_baseline(300 * 2048 + 1000 + 65_536), (300, 1000));
    assert_eq!(decode_uvfits_baseline(65_536), (0, 0));
    assert_eq!(decode_uvfits_baseline(65_534), (255, 254));
}

#[test]
fn baselines_round_trip() {
    for ant1 in [0usize, 1, 2, 17, 127, 254] {
        for ant2 in [0usize, 1, 2, 128, 255] {
            let bl = encode_uvfits_baseline(ant1, ant2);
            assert_eq!(decode_uvfits_baseline(bl), (ant1, ant2));
        }
        for ant2 in [256usize, 300, 2047] {
            let bl = encode_uvfits_baseline(ant1, ant2);
            assert_eq!(decode_uvfits_baseline(bl), (ant1, ant2));
        }
    }
    for bl in [0usize, 257, 513, 65_534, 65_536 + 256, 65_536 + 2048 * 3 + 1000] {
        let (a1, a2) = decode_uvfits_baseline(bl);
        assert_eq!(encode_uvfits_baseline(a1, a2), bl);
    }
}

#[test]
fn truncated_date_text() {
    assert_eq!(truncated_date_string(2013, 10, 15), "2013-10-15T00:00:00.0");
    assert_eq!(truncated_date_string(1999, 1, 5), "1999-1-5T00:00:00.0");
    assert_eq!(truncated_date_string(-44, 3, 15), "-44-3-15T00:00:00.0");
}

#[test]
fn truncated_date_of_another_epoch() {
    let epoch = hifitime::Epoch::from_gregorian_utc(2021, 2, 3, 23, 59, 59, 0);
    let (centuries, nanoseconds) = epoch.to_tai_parts();
    let epoch = TaiEpoch { centuries, nanoseconds };
    assert_eq!(get_truncated_date_string(&epoch), "2021-2-3T00:00:00.0");
}
