use sensorflow::input::{DeviceError, ListenError, ReadEvent, ReadStep};
use sensorflow::jeelink::JeeLinkFrame;
use sensorflow::protocol::{DecodeError, FrameValidation};
use sensorflow::FramedListener;

fn listener() -> FramedListener<u32, JeeLinkFrame> {
    FramedListener::new(7)
}

#[test]
fn closed_source_with_nothing_buffered_ends_stream() {
    let mut l = listener();
    assert_eq!(l.parse(), Ok(None));
    assert_eq!(l.on_read(ReadEvent::Bytes(vec![])), Ok(ReadStep::Ended));
}

#[test]
fn closed_source_with_partial_frame_is_lost() {
    let mut l = listener();
    assert_eq!(l.on_read(ReadEvent::Bytes(b"OK 9 50 1".to_vec())), Ok(ReadStep::Retry));
    assert_eq!(l.parse(), Ok(None));
    assert_eq!(
        l.on_read(ReadEvent::Bytes(vec![])),
        Err(DeviceError::ConnectionLost)
    );
}

#[test]
fn timeouts_then_frame_yields_frame() {
    let mut l = listener();
    for _ in 0..5 {
        assert_eq!(l.parse(), Ok(None));
        assert_eq!(l.on_read(ReadEvent::TimedOut), Ok(ReadStep::Retry));
    }
    assert_eq!(l.on_read(ReadEvent::Bytes(b"OK 9 50 1 4 ".to_vec())), Ok(ReadStep::Retry));
    assert_eq!(l.parse(), Ok(None));
    assert_eq!(l.on_read(ReadEvent::TimedOut), Ok(ReadStep::Retry));
    assert_eq!(l.on_read(ReadEvent::Bytes(b"193 65\r\nOK".to_vec())), Ok(ReadStep::Retry));
    assert_eq!(
        l.parse(),
        Ok(Some(JeeLinkFrame {
            id: 50,
            sensor_type: 1,
            new_battery: false,
            weak_battery: false,
            temperature: 217,
            humidity: 65
        }))
    );
    assert_eq!(l.parse(), Ok(None));
    assert_eq!(
        l.on_read(ReadEvent::Bytes(vec![])),
        Err(DeviceError::ConnectionLost)
    );
}

#[test]
fn malformed_frame_is_reported_and_consumed() {
    let mut l = listener();
    l.on_read(ReadEvent::Bytes(b"OK 9 50 x 4 193 65\r\n".to_vec()))
        .unwrap();
    assert_eq!(
        l.parse(),
        Err(ListenError::Decode(DecodeError::Validation(
            FrameValidation::InvalidChars("50 x 4 193 65".to_string())
        )))
    );
    assert_eq!(l.parse(), Ok(None));
    assert_eq!(l.on_read(ReadEvent::Bytes(vec![])), Ok(ReadStep::Ended));
}

#[test]
fn port_is_handed_out() {
    let mut l = listener();
    *l.port_mut() += 1;
    assert_eq!(*l.port_mut(), 8);
}

#[test]
fn jeelink_listener_starts_empty() {
    let mut l = sensorflow::jeelink::new(0u8);
    assert_eq!(l.buffered_len(), 0);
    assert_eq!(l.parse(), Ok(None));
    assert_eq!(*l.port_mut(), 0);
}
