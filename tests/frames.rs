use bytes::BytesMut;
use sensorflow::jeelink::JeeLinkFrame;
use sensorflow::protocol::{DecodeError, Frame, FrameCheckError, FrameValidation};

fn reading_50() -> JeeLinkFrame {
    JeeLinkFrame {
        id: 50,
        sensor_type: 1,
        new_battery: false,
        weak_battery: false,
        temperature: 217,
        humidity: 65,
    }
}

#[test]
fn device_test_frame_parsing() {
    let frame = JeeLinkFrame::parse(BytesMut::from(&b"50 1 4 193 65"[..])).unwrap();
    assert_eq!(frame, reading_50());
    assert_eq!(frame.temperature as f32 / 10.0, 21.7);
}

#[test]
fn jeelink_test_frame_parsing() {
    let frame = JeeLinkFrame::parse(BytesMut::from(&b"50 1 4 193 65"[..])).unwrap();
    assert_eq!(
        frame,
        JeeLinkFrame {
            id: 50,
            sensor_type: 1,
            new_battery: false,
            weak_battery: false,
            temperature: 217,
            humidity: 65
        }
    );
}

#[test]
fn device_test_frame_check_detects_incomplete_frame() {
    assert_eq!(
        JeeLinkFrame::check(&mut BytesMut::from(&b"OK 9 93 954 29"[..])),
        Err(FrameCheckError::Incomplete)
    );
}

#[test]
fn jeelink_test_frame_check_detects_incomplete_frame() {
    assert_eq!(
        JeeLinkFrame::check(&mut BytesMut::from(&b"OK 9 93 954 29"[..])),
        Err(FrameCheckError::Incomplete)
    );
}

#[test]
fn device_test_frame_check_extracts_frame_data() {
    assert_eq!(
        JeeLinkFrame::check(&mut BytesMut::from(
            &b"45 2 5OK 9 93 954 29\r\nOK 9 25 24 63\r\n"[..]
        )),
        Ok(BytesMut::from(&b"93 954 29"[..]))
    )
}

#[test]
fn jeelink_test_frame_check_extracts_frame_data() {
    assert_eq!(
        JeeLinkFrame::check(&mut BytesMut::from(
            &b"45 2 5OK 9 93 954 29\r\nOK 9 25 24 63\r\n"[..]
        )),
        Ok(BytesMut::from(&b"93 954 29"[..]))
    )
}

#[test]
fn device_test_frame_check_drops_frame_from_read_buffer() {
    let mut buf = BytesMut::from(&b"45 2 5OK 9 93 954 29\r\nOK 9 25 24 63\r\n"[..]);
    let _ = JeeLinkFrame::check(&mut buf);
    assert_eq!(buf, &b"OK 9 25 24 63\r\n"[..]);
}

#[test]
fn jeelink_test_frame_check_drops_frame_from_read_buffer() {
    let mut buf = BytesMut::from(&b"45 2 5OK 9 93 954 29\r\nOK 9 25 24 63\r\n"[..]);
    let _ = JeeLinkFrame::check(&mut buf);
    assert_eq!(buf, &b"OK 9 25 24 63\r\n"[..]);
}

#[test]
fn check_takes_frames_one_by_one() {
    let mut buf = BytesMut::from(&b"xyOK 9 1 2 3 4 5\r\nOK 9 6 7 8 9 10\r\n"[..]);
    assert_eq!(
        JeeLinkFrame::check(&mut buf),
        Ok(BytesMut::from(&b"1 2 3 4 5"[..]))
    );
    assert_eq!(
        JeeLinkFrame::check(&mut buf),
        Ok(BytesMut::from(&b"6 7 8 9 10"[..]))
    );
    assert!(buf.is_empty());
    assert_eq!(JeeLinkFrame::check(&mut buf), Err(FrameCheckError::Incomplete));
}

#[test]
fn check_on_bare_start_marker_is_incomplete() {
    let mut buf = BytesMut::from(&b"OK 9 "[..]);
    assert_eq!(JeeLinkFrame::check(&mut buf), Err(FrameCheckError::Incomplete));
    assert_eq!(buf, &b"OK 9 "[..]);
}

#[test]
fn check_drops_noise_before_marker() {
    let mut buf = BytesMut::from(&b"noise OK 9 1 2"[..]);
    assert_eq!(JeeLinkFrame::check(&mut buf), Err(FrameCheckError::Incomplete));
    assert_eq!(buf, &b"OK 9 1 2"[..]);
}

#[test]
fn check_keeps_short_tail_without_marker() {
    let mut buf = BytesMut::from(&b"abcdefgh"[..]);
    assert_eq!(JeeLinkFrame::check(&mut buf), Err(FrameCheckError::Incomplete));
    assert_eq!(buf, &b"efgh"[..]);
    let mut short = BytesMut::from(&b"OK 9"[..]);
    assert_eq!(JeeLinkFrame::check(&mut short), Err(FrameCheckError::Incomplete));
    assert_eq!(short, &b"OK 9"[..]);
}

#[test]
fn check_on_empty_frame_gives_empty_payload() {
    let mut buf = BytesMut::from(&b"OK 9 \r\nrest"[..]);
    assert_eq!(JeeLinkFrame::check(&mut buf), Ok(BytesMut::new()));
    assert_eq!(buf, &b"rest"[..]);
}

#[test]
fn parse_reads_flag_bits() {
    let frame = JeeLinkFrame::parse(BytesMut::from(&b"7 130 3 232 200"[..])).unwrap();
    assert_eq!(
        frame,
        JeeLinkFrame {
            id: 7,
            sensor_type: 2,
            new_battery: true,
            weak_battery: true,
            temperature: 0,
            humidity: 72
        }
    );
}

#[test]
fn parse_temperature_range() {
    let cold = JeeLinkFrame::parse(BytesMut::from(&b"1 1 3 200 10"[..])).unwrap();
    assert_eq!(cold.temperature, -32);
    let bottom = JeeLinkFrame::parse(BytesMut::from(&b"1 1 0 0 10"[..])).unwrap();
    assert_eq!(bottom.temperature, -1000);
    let top = JeeLinkFrame::parse(BytesMut::from(&b"1 1 255 255 10"[..])).unwrap();
    assert_eq!(top.temperature, 64535);
}

#[test]
fn parse_rejects_temperature_fields_above_a_byte() {
    assert_eq!(
        JeeLinkFrame::parse(BytesMut::from(&b"1 1 256 0 10"[..])),
        Err(DecodeError::Format)
    );
    assert_eq!(
        JeeLinkFrame::parse(BytesMut::from(&b"1 1 300 0 1"[..])),
        Err(DecodeError::Format)
    );
    assert_eq!(
        JeeLinkFrame::parse(BytesMut::from(&b"1 1 4 256 1"[..])),
        Err(DecodeError::Format)
    );
}

#[test]
fn parse_rejects_invalid_chars() {
    assert_eq!(
        JeeLinkFrame::parse(BytesMut::from(&b"50 1 4 193 6a"[..])),
        Err(DecodeError::Validation(FrameValidation::InvalidChars(
            "50 1 4 193 6a".to_string()
        )))
    );
    assert_eq!(
        JeeLinkFrame::parse(BytesMut::from(&b"+50 1 4 193 65"[..])),
        Err(DecodeError::Validation(FrameValidation::InvalidChars(
            "+50 1 4 193 65".to_string()
        )))
    );
}

#[test]
fn parse_rejects_wrong_separator_count() {
    assert_eq!(
        JeeLinkFrame::parse(BytesMut::from(&b"50 1 4 193"[..])),
        Err(DecodeError::Validation(FrameValidation::WrongNumberOfFields(
            "50 1 4 193".to_string()
        )))
    );
    assert_eq!(
        JeeLinkFrame::parse(BytesMut::from(&b"50 1 4 193 65 1"[..])),
        Err(DecodeError::Validation(FrameValidation::WrongNumberOfFields(
            "50 1 4 193 65 1".to_string()
        )))
    );
}

#[test]
fn parse_rejects_bad_fields() {
    // a tab counts as a separator for validation but does not split
    assert_eq!(
        JeeLinkFrame::parse(BytesMut::from(&b"50\t1 4 193 65"[..])),
        Err(DecodeError::Format)
    );
    assert_eq!(
        JeeLinkFrame::parse(BytesMut::from(&b"300 1 4 193 65"[..])),
        Err(DecodeError::Format)
    );
    assert_eq!(
        JeeLinkFrame::parse(BytesMut::from(&b"50  4 193 65"[..])),
        Err(DecodeError::Format)
    );
    assert_eq!(
        JeeLinkFrame::parse(BytesMut::from(&b"1 1 255 256 10"[..])),
        Err(DecodeError::Format)
    );
}

#[test]
fn parse_rejects_non_utf8() {
    assert_eq!(
        JeeLinkFrame::parse(BytesMut::from(&[0x35u8, 0xff, 0x20][..])),
        Err(DecodeError::NotUtf8)
    );
}

#[test]
fn validate_accepts_unicode_numerics_then_parse_fails() {
    assert_eq!(JeeLinkFrame::validate("٣ 1 4 193 65"), Ok(()));
    assert_eq!(
        JeeLinkFrame::parse(BytesMut::from("٣ 1 4 193 65")),
        Err(DecodeError::Format)
    );
    assert_eq!(JeeLinkFrame::validate("1\u{7}2 3 4 5 6"), Ok(()));
    assert_eq!(JeeLinkFrame::validate("1\u{85}2 3 4 5"), Ok(()));
    assert_eq!(
        JeeLinkFrame::validate("1\u{3000}2 3 4 5 6"),
        Err(FrameValidation::WrongNumberOfFields(
            "1\u{3000}2 3 4 5 6".to_string()
        ))
    );
}
