use chrono::NaiveDate;
use sensorflow::jeelink::JeeLinkFrame;
use sensorflow::output::{push_decimal, Decimal, LineProtocol, LineProtocolValue, ToOutput};
use sensorflow::pipeline::{make_reader, to_output, OutEnum, ProtoEnum};

fn decimal(mantissa: i64, scale: u32) -> String {
    let mut s = String::new();
    push_decimal(&mut s, Decimal { mantissa, scale });
    s
}

#[test]
fn line_protocol_fmt() {
    let line = LineProtocol::new("measurement1");
    assert_eq!(line.to_string(), "measurement1 ");

    assert_eq!(
        LineProtocol::new("measurement1")
            .add_value("keyI64", 1i64.into())
            .add_value("keyU64", 1u64.into())
            .add_value("keyStr", LineProtocolValue::String("value".to_string()))
            .add_value("keyBool", true.into())
            .add_value(
                "keyF64",
                Decimal {
                    mantissa: 11,
                    scale: 1
                }
                .into()
            )
            .to_string(),
        "measurement1 keyI64=1i,keyU64=1u,keyStr=\"value\",keyBool=true,keyF64=1.1"
    );

    assert_eq!(
        LineProtocol::new("measurement1")
            .add_tag("tag1", "1")
            .add_tag("tag2", "something")
            .to_string(),
        "measurement1,tag1=1,tag2=something "
    );

    let date = NaiveDate::from_ymd_opt(2016, 7, 8)
        .expect("should work")
        .and_hms_nano_opt(9, 10, 11, 1)
        .expect("Should work")
        .and_utc();

    assert_eq!(
        LineProtocol::new("measurement1")
            .add_tag("tag1", "1")
            .add_value("keyI64", 1i64.into())
            .add_time(date.timestamp_nanos_opt())
            .to_string(),
        "measurement1,tag1=1 keyI64=1i 1467969011000000001"
    );
}

#[test]
fn test_frame_correctly_translated_to_lineprotocol() {
    let frame = JeeLinkFrame {
        id: 50,
        sensor_type: 1,
        new_battery: false,
        weak_battery: false,
        temperature: 215,
        humidity: 65,
    };
    assert_eq!(
        frame.to_lineprotocol_at(None).to_string(),
        "tempHum,sensorId=50,sensorType=1 temperature=21.5,humidity=65u,weak_battery=false,new_battery=false"
    );
}

#[test]
fn frame_point_with_time() {
    let frame = JeeLinkFrame {
        id: 3,
        sensor_type: 0,
        new_battery: true,
        weak_battery: true,
        temperature: -5,
        humidity: 0,
    };
    assert_eq!(
        frame.to_lineprotocol_at(Some(-12)).to_string(),
        "tempHum,sensorId=3,sensorType=0 temperature=-0.5,humidity=0u,weak_battery=true,new_battery=true -12"
    );
}

#[test]
fn bare_point_renders_measurement_and_space() {
    assert_eq!(LineProtocol::new("m").to_string(), "m ");
    assert_eq!(LineProtocol::new("").to_string(), " ");
    assert_eq!(LineProtocol::new("m").add_time(Some(0)).to_string(), "m  0");
}

#[test]
fn repeated_keys_are_kept_in_order() {
    assert_eq!(
        LineProtocol::new("m")
            .add_tag("a", "1")
            .add_tag("a", "2")
            .add_value("v", LineProtocolValue::Integer(-3))
            .add_value("v", LineProtocolValue::Tag("raw".to_string()))
            .to_string(),
        "m,a=1,a=2 v=-3i,v=raw"
    );
}

#[test]
fn extreme_integers() {
    assert_eq!(
        LineProtocol::new("m")
            .add_value("a", LineProtocolValue::Integer(i64::MIN))
            .add_value("b", LineProtocolValue::UInteger(u64::MAX))
            .add_time(Some(i64::MAX))
            .to_string(),
        "m a=-9223372036854775808i,b=18446744073709551615u 9223372036854775807"
    );
}

#[test]
fn decimals_render_in_shortest_form() {
    assert_eq!(decimal(217, 1), "21.7");
    assert_eq!(decimal(210, 1), "21");
    assert_eq!(decimal(0, 3), "0");
    assert_eq!(decimal(-5, 1), "-0.5");
    assert_eq!(decimal(5, 3), "0.005");
    assert_eq!(decimal(12345, 2), "123.45");
    assert_eq!(decimal(1200, 0), "1200");
    assert_eq!(decimal(i64::MIN, 18), "-9.223372036854775808");
}

#[test]
fn frame_as_text() {
    let frame = JeeLinkFrame {
        id: 5,
        sensor_type: 1,
        new_battery: false,
        weak_battery: true,
        temperature: 210,
        humidity: 65,
    };
    assert_eq!(
        frame.to_text(),
        "Sensor  5: Type  1, Temperatur   21, Humidity 65, weak battery: true, new battery: false"
    );
}

#[test]
fn output_formats() {
    let frame = JeeLinkFrame {
        id: 50,
        sensor_type: 1,
        new_battery: false,
        weak_battery: false,
        temperature: 217,
        humidity: 65,
    };
    assert_eq!(
        to_output(OutEnum::Stringify, &frame),
        "Sensor 50: Type  1, Temperatur 21.7, Humidity 65, weak battery: false, new battery: false"
    );
    let line = to_output(OutEnum::Influxdb, &frame);
    let prefix = "tempHum,sensorId=50,sensorType=1 temperature=21.7,humidity=65u,weak_battery=false,new_battery=false ";
    assert!(line.starts_with(prefix));
    let stamp = &line[prefix.len()..];
    assert!(!stamp.is_empty());
    assert!(stamp.chars().all(|c| c.is_ascii_digit()));
}

#[test]
fn reader_for_jeelink() {
    let config = make_reader(ProtoEnum::Jeelink, "/dev/ttyUSB0".to_string());
    assert_eq!(config.protocol, ProtoEnum::Jeelink);
    assert_eq!(config.path, "/dev/ttyUSB0");
    assert_eq!(config.baud_rate, 57600);
}
