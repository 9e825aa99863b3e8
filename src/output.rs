//! The series encoder: points of the line protocol,
//! `measurement[,tag=value]* field=value[,field=value]*[ timestamp]`.

use crate::decimal::{dec_digits, int_text, push_digits, push_int};
use crate::text::{chars_of, push_char};
use vstd::prelude::*;
use vstd::string::StringExecFns;

verus! {

/// A decimal number: `mantissa` divided by ten to the power `scale`.
#[derive(Debug, Clone, Copy, PartialEq, Eq, Structural)]
pub struct Decimal {
    pub mantissa: i64,
    pub scale: u32,
}

/// A value of a tag or a field.
#[derive(Debug, PartialEq)]
pub enum LineProtocolValue {
    Float(Decimal),
    Integer(i64),
    UInteger(u64),
    String(String),
    Boolean(bool),
    Tag(String),
}

impl From<i64> for LineProtocolValue {
    fn from(x: i64) -> (r: LineProtocolValue)
        ensures
            r == LineProtocolValue::Integer(x),
    {
        LineProtocolValue::Integer(x)
    }
}

impl vstd::std_specs::convert::FromSpecImpl<i64> for LineProtocolValue {
    open spec fn obeys_from_spec() -> bool {
        true
    }

    open spec fn from_spec(x: i64) -> LineProtocolValue {
        LineProtocolValue::Integer(x)
    }
}

impl From<u64> for LineProtocolValue {
    fn from(x: u64) -> (r: LineProtocolValue)
        ensures
            r == LineProtocolValue::UInteger(x),
    {
        LineProtocolValue::UInteger(x)
    }
}

impl vstd::std_specs::convert::FromSpecImpl<u64> for LineProtocolValue {
    open spec fn obeys_from_spec() -> bool {
        true
    }

    open spec fn from_spec(x: u64) -> LineProtocolValue {
        LineProtocolValue::UInteger(x)
    }
}

impl From<Decimal> for LineProtocolValue {
    fn from(x: Decimal) -> (r: LineProtocolValue)
        ensures
            r == LineProtocolValue::Float(x),
    {
        LineProtocolValue::Float(x)
    }
}

impl vstd::std_specs::convert::FromSpecImpl<Decimal> for LineProtocolValue {
    open spec fn obeys_from_spec() -> bool {
        true
    }

    open spec fn from_spec(x: Decimal) -> LineProtocolValue {
        LineProtocolValue::Float(x)
    }
}

impl From<bool> for LineProtocolValue {
    fn from(x: bool) -> (r: LineProtocolValue)
        ensures
            r == LineProtocolValue::Boolean(x),
    {
        LineProtocolValue::Boolean(x)
    }
}

impl vstd::std_specs::convert::FromSpecImpl<bool> for LineProtocolValue {
    open spec fn obeys_from_spec() -> bool {
        true
    }

    open spec fn from_spec(x: bool) -> LineProtocolValue {
        LineProtocolValue::Boolean(x)
    }
}

/// A magnitude and a scale with the trailing zeros of the fraction taken
/// off.
pub open spec fn strip_zeros(m: nat, s: nat) -> (nat, nat)
    decreases s,
{
    if s > 0 && m % 10 == 0 {
        strip_zeros(m / 10, (s - 1) as nat)
    } else {
        (m, s)
    }
}

pub open spec fn zeros(n: nat) -> Seq<char> {
    Seq::new(n, |i: int| '0')
}

/// The digits `d` with a decimal point placed `s` digits from the right,
/// padded with zeros on the left where they are fewer.
pub open spec fn place_point(d: Seq<char>, s: nat) -> Seq<char> {
    if s == 0 {
        d
    } else if d.len() > s {
        d.subrange(0, d.len() - s) + seq!['.'] + d.subrange(d.len() - s, d.len() as int)
    } else {
        seq!['0', '.'] + zeros((s - d.len()) as nat) + d
    }
}

pub open spec fn magnitude(i: int) -> nat {
    if i < 0 {
        (-i) as nat
    } else {
        i as nat
    }
}

/// A decimal number as text: its shortest form, with no trailing zeros
/// after the point and no point when there is no fraction.
pub open spec fn decimal_text(x: Decimal) -> Seq<char> {
    let (m, s) = strip_zeros(magnitude(x.mantissa as int), x.scale as nat);
    let sign = if x.mantissa < 0 {
        seq!['-']
    } else {
        Seq::empty()
    };
    sign + place_point(dec_digits(m), s)
}

pub open spec fn bool_text(b: bool) -> Seq<char> {
    if b {
        seq!['t', 'r', 'u', 'e']
    } else {
        seq!['f', 'a', 'l', 's', 'e']
    }
}

/// A value as the line protocol writes it.
pub open spec fn value_text(v: LineProtocolValue) -> Seq<char> {
    match v {
        LineProtocolValue::Float(x) => decimal_text(x),
        LineProtocolValue::Integer(i) => int_text(i as int).push('i'),
        LineProtocolValue::UInteger(u) => int_text(u as int).push('u'),
        LineProtocolValue::String(s) => seq!['"'] + s@ + seq!['"'],
        LineProtocolValue::Boolean(b) => bool_text(b),
        LineProtocolValue::Tag(s) => s@,
    }
}

/// A point as the specifications see it: each tag and field as its key and
/// the text of its value, in the order they were added.
pub struct PointView {
    pub measurement: Seq<char>,
    pub tags: Seq<(Seq<char>, Seq<char>)>,
    pub fields: Seq<(Seq<char>, Seq<char>)>,
    pub time: Option<i64>,
}

pub open spec fn item_text(kv: (Seq<char>, Seq<char>)) -> Seq<char> {
    kv.0 + seq!['='] + kv.1
}

/// The tags, each behind a comma.
pub open spec fn tags_text(tags: Seq<(Seq<char>, Seq<char>)>) -> Seq<char>
    decreases tags.len(),
{
    if tags.len() == 0 {
        Seq::empty()
    } else {
        tags_text(tags.drop_last()) + seq![','] + item_text(tags.last())
    }
}

/// The fields, joined by commas.
pub open spec fn fields_text(fields: Seq<(Seq<char>, Seq<char>)>) -> Seq<char>
    decreases fields.len(),
{
    if fields.len() == 0 {
        Seq::empty()
    } else if fields.len() == 1 {
        item_text(fields[0])
    } else {
        fields_text(fields.drop_last()) + seq![','] + item_text(fields.last())
    }
}

/// The timestamp behind a space, or nothing.
pub open spec fn time_text(t: Option<i64>) -> Seq<char> {
    match t {
        Some(n) => seq![' '] + int_text(n as int),
        None => Seq::empty(),
    }
}

/// A point as one line of the line protocol.
pub open spec fn line_text(p: PointView) -> Seq<char> {
    p.measurement + tags_text(p.tags) + seq![' '] + fields_text(p.fields) + time_text(p.time)
}

struct Item(String, LineProtocolValue);

impl Item {
    closed spec fn pair(self) -> (Seq<char>, Seq<char>) {
        (self.0@, value_text(self.1))
    }
}

/// One point of a time series: a measurement, tags and fields in the order
/// they were added (a repeated key is kept), and a timestamp in nanoseconds
/// since the epoch.
pub struct LineProtocol {
    measurement: String,
    tags: Vec<Item>,
    values: Vec<Item>,
    time: Option<i64>,
}

impl View for LineProtocol {
    type V = PointView;

    closed spec fn view(&self) -> PointView {
        PointView {
            measurement: self.measurement@,
            tags: self.tags@.map_values(|it: Item| it.pair()),
            fields: self.values@.map_values(|it: Item| it.pair()),
            time: self.time,
        }
    }
}

pub(crate) fn push_str(out: &mut String, s: &str)
    ensures
        final(out)@ == old(out)@ + s@,
{
    out.append(s);
}

/// Appends `v@[from..to]`.
fn push_range(out: &mut String, v: &Vec<char>, from: usize, to: usize)
    requires
        from <= to <= v@.len(),
    ensures
        final(out)@ == old(out)@ + v@.subrange(from as int, to as int),
{
    let mut i = from;
    while i < to
        invariant
            from <= i <= to,
            to <= v@.len(),
            out@ == old(out)@ + v@.subrange(from as int, i as int),
        decreases to - i,
    {
        push_char(out, v[i]);
        i = i + 1;
        assert(out@ =~= old(out)@ + v@.subrange(from as int, i as int));
    }
}

/// Appends `n` zeros.
fn push_zeros(out: &mut String, n: u32)
    ensures
        final(out)@ == old(out)@ + zeros(n as nat),
{
    let mut i: u32 = 0;
    while i < n
        invariant
            i <= n,
            out@ == old(out)@ + zeros(i as nat),
        decreases n - i,
    {
        push_char(out, '0');
        i = i + 1;
        assert(out@ =~= old(out)@ + zeros(i as nat));
    }
}

/// Appends a decimal number as text.
pub fn push_decimal(out: &mut String, x: Decimal)
    ensures
        final(out)@ == old(out)@ + decimal_text(x),
{
    let mut m: u64 = if x.mantissa < 0 {
        (-(x.mantissa as i128)) as u64
    } else {
        x.mantissa as u64
    };
    let mut s: u32 = x.scale;
    while s > 0 && m % 10 == 0
        invariant
            strip_zeros(m as nat, s as nat) == strip_zeros(
                magnitude(x.mantissa as int),
                x.scale as nat,
            ),
        decreases s,
    {
        m = m / 10;
        s = s - 1;
    }
    assert(strip_zeros(m as nat, s as nat) == (m as nat, s as nat));
    let mut digits = String::new();
    push_digits(&mut digits, m);
    let d = chars_of(digits.as_str());
    let ghost sign = if x.mantissa < 0 {
        seq!['-']
    } else {
        Seq::<char>::empty()
    };
    if x.mantissa < 0 {
        push_char(out, '-');
    }
    let ghost signed = out@;
    assert(signed =~= old(out)@ + sign);
    let len = d.len();
    if s == 0 {
        push_range(out, &d, 0, len);
        assert(d@.subrange(0, len as int) =~= d@);
    } else if len as u64 > s as u64 {
        let cut = len - s as usize;
        push_range(out, &d, 0, cut);
        push_char(out, '.');
        push_range(out, &d, cut, len);
    } else {
        push_char(out, '0');
        push_char(out, '.');
        push_zeros(out, s - len as u32);
        push_range(out, &d, 0, len);
        assert(d@.subrange(0, len as int) =~= d@);
    }
    assert(out@ =~= old(out)@ + decimal_text(x));
}

pub(crate) fn push_bool(out: &mut String, b: bool)
    ensures
        final(out)@ == old(out)@ + bool_text(b),
{
    if b {
        push_char(out, 't');
        push_char(out, 'r');
        push_char(out, 'u');
        push_char(out, 'e');
    } else {
        push_char(out, 'f');
        push_char(out, 'a');
        push_char(out, 'l');
        push_char(out, 's');
        push_char(out, 'e');
    }
    assert(out@ =~= old(out)@ + bool_text(b));
}

fn push_value(out: &mut String, v: &LineProtocolValue)
    ensures
        final(out)@ == old(out)@ + value_text(*v),
{
    match v {
        LineProtocolValue::Float(x) => push_decimal(out, *x),
        LineProtocolValue::Integer(i) => {
            push_int(out, *i);
            push_char(out, 'i');
        },
        LineProtocolValue::UInteger(u) => {
            push_digits(out, *u);
            push_char(out, 'u');
        },
        LineProtocolValue::String(s) => {
            push_char(out, '"');
            push_str(out, s.as_str());
            push_char(out, '"');
            assert(out@ =~= old(out)@ + value_text(*v));
        },
        LineProtocolValue::Boolean(b) => push_bool(out, *b),
        LineProtocolValue::Tag(s) => push_str(out, s.as_str()),
    }
}

fn push_item(out: &mut String, item: &Item)
    ensures
        final(out)@ == old(out)@ + item_text(item.pair()),
{
    push_str(out, item.0.as_str());
    push_char(out, '=');
    push_value(out, &item.1);
    assert(out@ =~= old(out)@ + item_text(item.pair()));
}

impl LineProtocol {
    /// A point of `measurement` with no tags, no fields and no timestamp.
    pub fn new(measurement: &str) -> (r: LineProtocol)
        ensures
            r@.measurement == measurement@,
            r@.tags == Seq::<(Seq<char>, Seq<char>)>::empty(),
            r@.fields == Seq::<(Seq<char>, Seq<char>)>::empty(),
            r@.time is None,
    {
        let r = LineProtocol {
            measurement: measurement.to_owned(),
            tags: Vec::new(),
            values: Vec::new(),
            time: None,
        };
        assert(r@.tags =~= Seq::<(Seq<char>, Seq<char>)>::empty());
        assert(r@.fields =~= Seq::<(Seq<char>, Seq<char>)>::empty());
        r
    }

    /// Adds a tag after those already there.
    pub fn add_tag(self, name: &str, tag: &str) -> (r: LineProtocol)
        ensures
            r@.measurement == self@.measurement,
            r@.tags == self@.tags.push((name@, tag@)),
            r@.fields == self@.fields,
            r@.time == self@.time,
    {
        let mut r = self;
        let item = Item(name.to_owned(), LineProtocolValue::Tag(tag.to_owned()));
        r.tags.push(item);
        assert(r@.tags =~= self@.tags.push((name@, tag@)));
        r
    }

    /// Adds a field after those already there.
    pub fn add_value(self, name: &str, value: LineProtocolValue) -> (r: LineProtocol)
        ensures
            r@.measurement == self@.measurement,
            r@.tags == self@.tags,
            r@.fields == self@.fields.push((name@, value_text(value))),
            r@.time == self@.time,
    {
        let mut r = self;
        let ghost v = value;
        let item = Item(name.to_owned(), value);
        r.values.push(item);
        assert(r@.fields =~= self@.fields.push((name@, value_text(v))));
        r
    }

    /// Sets the timestamp, in nanoseconds since the epoch, or removes it.
    pub fn add_time(self, time: Option<i64>) -> (r: LineProtocol)
        ensures
            r@.measurement == self@.measurement,
            r@.tags == self@.tags,
            r@.fields == self@.fields,
            r@.time == time,
    {
        let mut r = self;
        r.time = time;
        r
    }

    /// The point as one line of the line protocol.
    pub fn to_string(&self) -> (r: String)
        ensures
            r@ == line_text(self@),
    {
        let mut out = String::new();
        push_str(&mut out, self.measurement.as_str());
        let ghost tags = self@.tags;
        let nt = self.tags.len();
        let mut i: usize = 0;
        while i < nt
            invariant
                nt == tags.len(),
                tags == self@.tags,
                i <= nt,
                out@ == self@.measurement + tags_text(tags.take(i as int)),
            decreases nt - i,
        {
            push_char(&mut out, ',');
            push_item(&mut out, &self.tags[i]);
            proof {
                let t = tags.take(i + 1);
                assert(t.drop_last() =~= tags.take(i as int));
                assert(t.last() == self.tags@[i as int].pair());
            }
            i = i + 1;
        }
        assert(tags.take(nt as int) =~= tags);
        push_char(&mut out, ' ');
        let ghost head = out@;
        let ghost fields = self@.fields;
        let nf = self.values.len();
        let mut k: usize = 0;
        while k < nf
            invariant
                nf == fields.len(),
                fields == self@.fields,
                k <= nf,
                out@ == head + fields_text(fields.take(k as int)),
            decreases nf - k,
        {
            if k > 0 {
                push_char(&mut out, ',');
            }
            push_item(&mut out, &self.values[k]);
            proof {
                let t = fields.take(k + 1);
                assert(t.drop_last() =~= fields.take(k as int));
                assert(t.last() == self.values@[k as int].pair());
                if k == 0 {
                    assert(t[0] == t.last());
                }
            }
            k = k + 1;
        }
        assert(fields.take(nf as int) =~= fields);
        match self.time {
            Some(t) => {
                push_char(&mut out, ' ');
                push_int(&mut out, t);
            },
            None => {},
        }
        assert(out@ =~= line_text(self@));
        out
    }
}

/// A point with no tags and no fields is its measurement and a space: the
/// encoder writes empty sections rather than failing.
pub proof fn lemma_bare_point_text(p: PointView)
    requires
        p.tags.len() == 0,
        p.fields.len() == 0,
        p.time is None,
    ensures
        line_text(p) == p.measurement + seq![' '],
{
    assert(line_text(p) =~= p.measurement + seq![' ']);
}

/// A value that can be written as a point of the line protocol.
pub trait ToLineProtocol {
    /// The point that stands for the value, with the timestamp `time`.
    spec fn point_at(&self, time: Option<i64>) -> PointView;

    /// The point that stands for the value, with the timestamp it was
    /// given.
    fn to_lineprotocol(&self) -> (r: LineProtocol)
        ensures
            r@ == self.point_at(r@.time),
    ;
}

/// A value that can be written either as plain text or as a point of the
/// line protocol.
pub trait ToOutput: ToLineProtocol {
    /// The value as plain text.
    spec fn text(&self) -> Seq<char>;

    fn to_text(&self) -> (r: String)
        ensures
            r@ == self.text(),
    ;
}

} // verus!
