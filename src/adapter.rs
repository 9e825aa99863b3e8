//! The record-to-point adapter: a sensor reading as a point of the line
//! protocol, and as plain text.

use crate::decimal::{int_text, push_digits};
use crate::jeelink::JeeLinkFrame;
use crate::output::{
    bool_text, decimal_text, fields_text, item_text, line_text, tags_text, time_text, push_bool, push_decimal, push_str, value_text, Decimal,
    LineProtocol, LineProtocolValue, PointView, ToLineProtocol, ToOutput,
};
use crate::text::{chars_of, push_char};
use vstd::prelude::*;

verus! {

/// The temperature as a decimal number of degrees.
pub open spec fn temperature_decimal(f: JeeLinkFrame) -> Decimal {
    Decimal { mantissa: f.temperature as i64, scale: 1 }
}

/// The point that stands for a reading: measurement `tempHum`, the sensor's
/// id and type as tags, its temperature, humidity and battery flags as
/// fields.
pub open spec fn frame_point(f: JeeLinkFrame, time: Option<i64>) -> PointView {
    PointView {
        measurement: "tempHum"@,
        tags: seq![("sensorId"@, int_text(f.id as int)), ("sensorType"@, int_text(f.sensor_type as int))],
        fields: seq![
            ("temperature"@, value_text(LineProtocolValue::Float(temperature_decimal(f)))),
            ("humidity"@, value_text(LineProtocolValue::UInteger(f.humidity as u64))),
            ("weak_battery"@, value_text(LineProtocolValue::Boolean(f.weak_battery))),
            ("new_battery"@, value_text(LineProtocolValue::Boolean(f.new_battery))),
        ],
        time,
    }
}

proof fn lemma_two_tags_text(tags: Seq<(Seq<char>, Seq<char>)>)
    requires
        tags.len() == 2,
    ensures
        tags_text(tags) == seq![','] + item_text(tags[0]) + seq![','] + item_text(tags[1]),
{
    let t1 = tags.drop_last();
    assert(t1.drop_last() =~= Seq::<(Seq<char>, Seq<char>)>::empty());
    assert(t1.last() == tags[0] && tags.last() == tags[1]);
    assert(tags_text(t1.drop_last()) =~= Seq::<char>::empty());
    assert(tags_text(t1) =~= seq![','] + item_text(tags[0]));
}

proof fn lemma_four_fields_text(fields: Seq<(Seq<char>, Seq<char>)>)
    requires
        fields.len() == 4,
    ensures
        fields_text(fields) == item_text(fields[0]) + seq![','] + item_text(fields[1]) + seq![',']
            + item_text(fields[2]) + seq![','] + item_text(fields[3]),
{
    let f3 = fields.drop_last();
    let f2 = f3.drop_last();
    let f1 = f2.drop_last();
    assert(f1.len() == 1 && f1[0] == fields[0]);
    assert(f2.last() == fields[1] && f3.last() == fields[2] && fields.last() == fields[3]);
    assert(fields_text(f1) == item_text(fields[0]));
    assert(fields_text(f2) =~= item_text(fields[0]) + seq![','] + item_text(fields[1]));
    assert(fields_text(f3) =~= item_text(fields[0]) + seq![','] + item_text(fields[1]) + seq![
        ',',
    ] + item_text(fields[2]));
}

/// The line that the encoder writes for a reading: `tempHum`, the id and
/// type as tags, then the temperature as a decimal, the humidity as an
/// unsigned integer and the two battery flags as fields, then the timestamp
/// when there is one.
pub proof fn lemma_frame_line(f: JeeLinkFrame, time: Option<i64>)
    ensures
        line_text(frame_point(f, time)) == "tempHum"@ + seq![','] + item_text(
            ("sensorId"@, int_text(f.id as int)),
        ) + seq![','] + item_text(("sensorType"@, int_text(f.sensor_type as int))) + seq![' ']
            + item_text(("temperature"@, decimal_text(temperature_decimal(f)))) + seq![',']
            + item_text(("humidity"@, int_text(f.humidity as int).push('u'))) + seq![',']
            + item_text(("weak_battery"@, bool_text(f.weak_battery))) + seq![','] + item_text(
            ("new_battery"@, bool_text(f.new_battery)),
        ) + time_text(time),
{
    let p = frame_point(f, time);
    lemma_two_tags_text(p.tags);
    lemma_four_fields_text(p.fields);
    let tags = seq![','] + item_text(p.tags[0]) + seq![','] + item_text(p.tags[1]);
    let fields = item_text(p.fields[0]) + seq![','] + item_text(p.fields[1]) + seq![',']
        + item_text(p.fields[2]) + seq![','] + item_text(p.fields[3]);
    assert(line_text(p) == p.measurement + tags + seq![' '] + fields + time_text(time));
    assert(p.measurement + tags + seq![' '] + fields + time_text(time) =~= "tempHum"@ + seq![',']
        + item_text(p.tags[0]) + seq![','] + item_text(p.tags[1]) + seq![' '] + item_text(
        p.fields[0],
    ) + seq![','] + item_text(p.fields[1]) + seq![','] + item_text(p.fields[2]) + seq![',']
        + item_text(p.fields[3]) + time_text(time));
}

/// `s` right-aligned in a column of `w` characters.
pub open spec fn pad_left(s: Seq<char>, w: nat) -> Seq<char> {
    if s.len() >= w {
        s
    } else {
        Seq::new((w - s.len()) as nat, |i: int| ' ') + s
    }
}

/// A reading as plain text.
pub open spec fn frame_text(f: JeeLinkFrame) -> Seq<char> {
    "Sensor "@ + pad_left(int_text(f.id as int), 2) + ": Type "@ + pad_left(
        int_text(f.sensor_type as int),
        2,
    ) + ", Temperatur "@ + pad_left(decimal_text(temperature_decimal(f)), 4) + ", Humidity "@
        + pad_left(int_text(f.humidity as int), 2) + ", weak battery: "@ + bool_text(
        f.weak_battery,
    ) + ", new battery: "@ + bool_text(f.new_battery)
}

/// Appends `s` right-aligned in a column of `w` characters.
fn push_padded(out: &mut String, s: &String, w: usize)
    ensures
        final(out)@ == old(out)@ + pad_left(s@, w as nat),
{
    let n = chars_of(s.as_str()).len();
    let mut i = n;
    while i < w
        invariant
            n == s@.len(),
            n <= i,
            n < w ==> i <= w,
            n >= w ==> i == n,
            out@ == old(out)@ + Seq::new((i - n) as nat, |k: int| ' '),
        decreases w - i,
    {
        push_char(out, ' ');
        i = i + 1;
        assert(out@ =~= old(out)@ + Seq::new((i - n) as nat, |k: int| ' '));
    }
    let ghost spaces = out@;
    push_str(out, s.as_str());
    if n >= w {
        assert(spaces =~= old(out)@);
        assert(out@ =~= old(out)@ + s@);
    } else {
        assert(out@ =~= old(out)@ + pad_left(s@, w as nat));
    }
}

/// Relies on chrono's `From<SystemTime> for DateTime<Utc>`, which takes
/// clocks before 1970 as well, and on `DateTime::timestamp_nanos_opt`: the
/// time now in nanoseconds since the epoch, `None` past what 64 bits hold.
/// Nothing is stated of the value, which depends on the clock.
#[verifier::external_body]
fn now_nanos() -> (r: Option<i64>) {
    chrono::DateTime::<chrono::Utc>::from(std::time::SystemTime::now()).timestamp_nanos_opt()
}

impl JeeLinkFrame {
    /// The point that stands for the reading, with the timestamp `time`.
    pub fn to_lineprotocol_at(&self, time: Option<i64>) -> (r: LineProtocol)
        ensures
            r@ == frame_point(*self, time),
    {
        let mut id = String::new();
        push_digits(&mut id, self.id as u64);
        let mut sensor_type = String::new();
        push_digits(&mut sensor_type, self.sensor_type as u64);
        let r = LineProtocol::new("tempHum").add_tag("sensorId", id.as_str()).add_tag(
            "sensorType",
            sensor_type.as_str(),
        ).add_value(
            "temperature",
            LineProtocolValue::Float(Decimal { mantissa: self.temperature as i64, scale: 1 }),
        ).add_value("humidity", LineProtocolValue::UInteger(self.humidity as u64)).add_value(
            "weak_battery",
            LineProtocolValue::Boolean(self.weak_battery),
        ).add_value("new_battery", LineProtocolValue::Boolean(self.new_battery)).add_time(time);
        assert(r@.tags =~= frame_point(*self, time).tags);
        assert(r@.fields =~= frame_point(*self, time).fields);
        r
    }
}

impl ToLineProtocol for JeeLinkFrame {
    open spec fn point_at(&self, time: Option<i64>) -> PointView {
        frame_point(*self, time)
    }

    /// The point that stands for the reading, stamped with the time now.
    fn to_lineprotocol(&self) -> (r: LineProtocol) {
        self.to_lineprotocol_at(now_nanos())
    }
}

impl ToOutput for JeeLinkFrame {
    open spec fn text(&self) -> Seq<char> {
        frame_text(*self)
    }

    fn to_text(&self) -> (r: String) {
        let mut out = String::new();
        push_str(&mut out, "Sensor ");
        let mut t = String::new();
        push_digits(&mut t, self.id as u64);
        push_padded(&mut out, &t, 2);
        push_str(&mut out, ": Type ");
        let mut t = String::new();
        push_digits(&mut t, self.sensor_type as u64);
        push_padded(&mut out, &t, 2);
        push_str(&mut out, ", Temperatur ");
        let mut t = String::new();
        push_decimal(&mut t, Decimal { mantissa: self.temperature as i64, scale: 1 });
        push_padded(&mut out, &t, 4);
        push_str(&mut out, ", Humidity ");
        let mut t = String::new();
        push_digits(&mut t, self.humidity as u64);
        push_padded(&mut out, &t, 2);
        push_str(&mut out, ", weak battery: ");
        push_bool(&mut out, self.weak_battery);
        push_str(&mut out, ", new battery: ");
        push_bool(&mut out, self.new_battery);
        assert(out@ =~= frame_text(*self));
        out
    }
}

} // verus!
