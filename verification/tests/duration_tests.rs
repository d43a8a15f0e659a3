//! Conversions between signed and canonical durations.

use gateway_config::driver::{Driver, SeededDriver};
use gateway_config::duration::{CanonicalDuration, Duration, DurationConversionError};

#[test]
fn test_proto_to_std_duration_conversion_bolero() {
    let mut d = SeededDriver::new(11);
    for _ in 0..2000 {
        let seconds = d.gen_i64(i64::MIN, i64::MAX).unwrap();
        let nanos = d.gen_i32(i32::MIN, i32::MAX).unwrap();
        let proto_duration = Duration { seconds, nanos };
        let result = proto_duration.to_canonical();
        match result {
            Ok(duration) => {
                // This check is not complete, but easy to check in this case.
                // A nanosecond component of a whole second or more carries
                // into the seconds, as a canonical duration demands.
                if proto_duration.seconds > 0 && proto_duration.nanos > 0 {
                    let secs = u64::try_from(proto_duration.seconds).unwrap();
                    let nanos = u32::try_from(proto_duration.nanos).unwrap();
                    assert_eq!(
                        duration,
                        CanonicalDuration {
                            seconds: secs + u64::from(nanos / 1_000_000_000),
                            nanos: nanos % 1_000_000_000,
                        }
                    );
                }
            }
            Err(_) => {
                // This is not a full check that the error is valid, but one of
                // these must be true for there to be a conversion error
                assert!(proto_duration.seconds < 0 || proto_duration.nanos < 0);
            }
        }
    }
    // Small values around zero, where normalization does its work.
    let mut d = SeededDriver::new(12);
    for _ in 0..2000 {
        let seconds = d.gen_i64(-3, 3).unwrap();
        let nanos = d.gen_i32(-2_000_000_001, 2_000_000_001).unwrap();
        let proto_duration = Duration { seconds, nanos };
        let total = i128::from(seconds) * 1_000_000_000 + i128::from(nanos);
        match proto_duration.to_canonical() {
            Ok(c) => {
                assert!(total >= 0);
                assert!(c.nanos < 1_000_000_000);
                assert_eq!(i128::from(c.seconds) * 1_000_000_000 + i128::from(c.nanos), total);
            }
            Err(e) => {
                assert!(total < 0);
                assert_eq!(e, DurationConversionError::NegativeDuration(seconds, nanos));
            }
        }
    }
}

#[test]
fn test_proto_to_std_duration_conversion_negative_nanos() {
    let proto_duration = Duration {
        seconds: 10,
        nanos: -1,
    };
    let result = proto_duration.to_canonical();
    assert_eq!(
        result.unwrap(),
        CanonicalDuration { seconds: 9, nanos: 999_999_999 }
    );

    let proto_duration = Duration {
        seconds: 10,
        nanos: -1_000_000_001,
    };
    let result = proto_duration.to_canonical();
    assert_eq!(
        result.unwrap(),
        CanonicalDuration { seconds: 8, nanos: 999_999_999 }
    );
}

#[test]
fn test_proto_to_std_duration_conversion_negative_seconds() {
    let proto_duration = Duration {
        seconds: -1,
        nanos: 1_000_000_001,
    };
    let result = proto_duration.to_canonical();
    assert_eq!(result.unwrap(), CanonicalDuration { seconds: 0, nanos: 1 });

    let proto_duration = Duration {
        seconds: -1,
        nanos: 2_000_000_000,
    };
    let result = proto_duration.to_canonical();
    assert_eq!(result.unwrap(), CanonicalDuration { seconds: 1, nanos: 0 });
}

#[test]
fn test_std_to_proto_duration_conversion_bolero() {
    let mut d = SeededDriver::new(13);
    for _ in 0..2000 {
        let seconds = d.gen_u64(0, u64::MAX).unwrap();
        let nanos = d.gen_u32(0, 999_999_999).unwrap();
        let duration = CanonicalDuration { seconds, nanos };
        let proto_duration_result = duration.to_duration();
        match proto_duration_result {
            Err(_) => {
                assert!(i64::try_from(duration.seconds).is_err());
            }
            Ok(proto_duration) => {
                assert_eq!(
                    u64::try_from(proto_duration.seconds).unwrap(),
                    duration.seconds
                );
                assert_eq!(
                    u32::try_from(proto_duration.nanos).unwrap(),
                    duration.nanos
                );
            }
        }
    }
}

#[test]
fn test_duration_net_negative_fails() {
    let proto_duration = Duration {
        seconds: -1,
        nanos: 0,
    };
    let result = proto_duration.to_canonical();
    assert_eq!(
        result.unwrap_err(),
        DurationConversionError::NegativeDuration(-1, 0)
    );
}

#[test]
fn test_duration_component_out_of_range() {
    let c = CanonicalDuration { seconds: u64::MAX, nanos: 5 };
    assert_eq!(
        c.to_duration().unwrap_err(),
        DurationConversionError::ComponentOutOfRange(u64::MAX, 5)
    );
    let c = CanonicalDuration { seconds: i64::MAX as u64, nanos: 5 };
    assert_eq!(
        c.to_duration().unwrap(),
        Duration { seconds: i64::MAX, nanos: 5 }
    );
}

#[test]
fn test_duration_round_trip() {
    // Concrete pairs, then a seeded sweep: converting a canonical duration
    // to the signed form and back yields the identical pair.
    let cases: [(u64, u32); 4] = [(0, 0), (1, 999_999_999), (42, 1), (i64::MAX as u64, 123)];
    for (seconds, nanos) in cases {
        let c = CanonicalDuration { seconds, nanos };
        let signed = c.to_duration().unwrap();
        assert_eq!(signed.to_canonical().unwrap(), c);
    }
    let mut d = SeededDriver::new(14);
    for _ in 0..2000 {
        let seconds = d.gen_u64(0, i64::MAX as u64).unwrap();
        let nanos = d.gen_u32(0, 999_999_999).unwrap();
        let c = CanonicalDuration { seconds, nanos };
        let signed = c.to_duration().unwrap();
        assert_eq!(signed.to_canonical().unwrap(), c);
    }
}
