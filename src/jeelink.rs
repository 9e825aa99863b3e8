//! The JeeLink gateway's frame grammar: `OK 9 <id> <flags> <temp hi> <temp lo>
//! <flags>\r\n`, and the sensor reading that a frame carries.

use crate::buffer::{buffer_advance, buffer_byte, buffer_bytes, buffer_len, buffer_split_to};
use crate::decimal::{bounded_value, parse_unsigned};
use crate::input::{listen, FramedListener, Outcome, ReadEvent};
use crate::protocol::{DecodeError, DecodeFault, Frame, FrameCheckError, FrameValidation};
use crate::text::{
    ascii_control, chars_of, control_char, is_ascii_control, is_control, is_numeric,
    is_whitespace, numeric_char, utf8_text, whitespace_char,
};
use bytes::BytesMut;
use vstd::prelude::*;
use vstd::utf8::{decode_utf8, valid_utf8};

verus! {

/// Baud rate of the gateway's serial line.
pub const BAUD_RATE: u32 = 57600;

/// A listener for JeeLink frames on `port`, with nothing buffered.
pub fn new<P>(port: P) -> (r: FramedListener<P, JeeLinkFrame>)
    ensures
        r.buffered() == Seq::<u8>::empty(),
        r.port_view() == port,
{
    FramedListener::new(port)
}

/// One reading of a temperature and humidity sensor, as the gateway reports
/// it.
#[derive(Debug, Clone, Copy, PartialEq, Eq, Structural)]
pub struct JeeLinkFrame {
    pub id: u8,
    pub sensor_type: u8,
    pub new_battery: bool,
    pub weak_battery: bool,
    /// Degrees Celsius, in tenths.
    pub temperature: i32,
    pub humidity: u8,
}

/// The bytes that open a frame: `OK 9 `.
pub open spec fn start_marker() -> Seq<u8> {
    seq![79u8, 75u8, 32u8, 57u8, 32u8]
}

/// The bytes that close a frame: `\r\n`.
pub open spec fn end_marker() -> Seq<u8> {
    seq![13u8, 10u8]
}

pub open spec fn starts_with_marker(s: Seq<u8>) -> bool {
    s.len() >= 5 && s.subrange(0, 5) == start_marker()
}

/// The buffer after resynchronisation: leading bytes are dropped one at a
/// time until the start marker heads it or fewer bytes than the marker are
/// left.
pub open spec fn resync(s: Seq<u8>) -> Seq<u8>
    decreases s.len(),
{
    if s.len() < 5 || starts_with_marker(s) {
        s
    } else {
        resync(s.drop_first())
    }
}

/// The end marker begins at `i`.
pub open spec fn end_marker_at(s: Seq<u8>, i: int) -> bool {
    0 <= i && i + 1 < s.len() && s[i] == 13u8 && s[i + 1] == 10u8
}

/// The first offset at or after `from` where the end marker begins.
pub open spec fn end_from(s: Seq<u8>, from: int) -> Option<int>
    decreases s.len() - from,
{
    if from < 0 || from + 1 >= s.len() {
        None
    } else if end_marker_at(s, from) {
        Some(from)
    } else {
        end_from(s, from + 1)
    }
}

/// What `check` does to a buffer: the payload of the first complete frame
/// and what follows its end marker, or `Incomplete` and the resynchronised
/// buffer.
pub open spec fn check_model(s: Seq<u8>) -> (Result<Seq<u8>, FrameCheckError>, Seq<u8>) {
    let r = resync(s);
    if r.len() < 5 {
        (Err(FrameCheckError::Incomplete), r)
    } else {
        match end_from(r, 0) {
            Some(i) => (Ok(r.subrange(5, i)), r.subrange(i + 2, r.len() as int)),
            None => (Err(FrameCheckError::Incomplete), r),
        }
    }
}

proof fn lemma_end_from_bounds(s: Seq<u8>, from: int)
    ensures
        end_from(s, from) matches Some(i) ==> from <= i && end_marker_at(s, i),
    decreases s.len() - from,
{
    if !(from < 0 || from + 1 >= s.len()) && !end_marker_at(s, from) {
        lemma_end_from_bounds(s, from + 1);
    }
}

proof fn lemma_no_end_in_marker(s: Seq<u8>)
    requires
        starts_with_marker(s),
    ensures
        end_from(s, 0) matches Some(i) ==> 5 <= i,
{
    assert(s[0] == s.subrange(0, 5)[0]);
    assert(s[1] == s.subrange(0, 5)[1]);
    assert(s[2] == s.subrange(0, 5)[2]);
    assert(s[3] == s.subrange(0, 5)[3]);
    assert(s[4] == s.subrange(0, 5)[4]);
    assert(!end_marker_at(s, 0));
    assert(!end_marker_at(s, 1));
    assert(!end_marker_at(s, 2));
    assert(!end_marker_at(s, 3));
    assert(!end_marker_at(s, 4));
    assert(end_from(s, 0) == end_from(s, 5)) by {
        assert(end_from(s, 3) == end_from(s, 4));
        assert(end_from(s, 2) == end_from(s, 3));
        assert(end_from(s, 1) == end_from(s, 2));
        assert(end_from(s, 0) == end_from(s, 1));
        assert(end_from(s, 4) == end_from(s, 5));
    }
    lemma_end_from_bounds(s, 5);
}

/// The start marker begins at `i`.
pub open spec fn start_marker_at(g: Seq<u8>, i: int) -> bool {
    0 <= i && i + 5 <= g.len() && g.subrange(i, i + 5) == start_marker()
}

/// No start marker lies wholly inside `g`.
pub open spec fn no_start_marker(g: Seq<u8>) -> bool {
    forall|i: int| !#[trigger] start_marker_at(g, i)
}

/// No end marker begins anywhere in `s`.
pub open spec fn no_end_marker(s: Seq<u8>) -> bool {
    forall|i: int| !#[trigger] end_marker_at(s, i)
}

proof fn lemma_resync_skips(g: Seq<u8>, s: Seq<u8>)
    requires
        no_start_marker(g),
        starts_with_marker(s),
    ensures
        resync(g + s) == s,
    decreases g.len(),
{
    let x = g + s;
    if g.len() == 0 {
        assert(x =~= s);
    } else {
        assert(s.subrange(0, 5) == start_marker());
        assert(s[0] == s.subrange(0, 5)[0]);
        if g.len() >= 5 {
            assert(x.subrange(0, 5) =~= g.subrange(0, 5));
            assert(!start_marker_at(g, 0));
        } else {
            let d = g.len() as int;
            assert(x.subrange(0, 5)[d] == s[0]);
            let m = start_marker();
            assert(m[1] != 79u8 && m[2] != 79u8 && m[3] != 79u8 && m[4] != 79u8);
            assert(x.subrange(0, 5)[d] != m[d]);
        }
        assert(!starts_with_marker(x));
        let g1 = g.drop_first();
        assert(x.drop_first() =~= g1 + s);
        assert forall|i: int| !#[trigger] start_marker_at(g1, i) by {
            if 0 <= i && i + 5 <= g1.len() {
                assert(g1.subrange(i, i + 5) =~= g.subrange(i + 1, i + 6));
                assert(!start_marker_at(g, i + 1));
            }
        }
        lemma_resync_skips(g1, s);
    }
}

proof fn lemma_end_from_first(s: Seq<u8>, from: int, j: int)
    requires
        0 <= from <= j,
        end_marker_at(s, j),
        forall|i: int| from <= i < j ==> !#[trigger] end_marker_at(s, i),
    ensures
        end_from(s, from) == Some(j),
    decreases j - from,
{
    if from < j {
        assert(!end_marker_at(s, from));
        lemma_end_from_first(s, from + 1, j);
    }
}

proof fn lemma_end_from_none(s: Seq<u8>, from: int)
    requires
        0 <= from,
        forall|i: int| from <= i ==> !#[trigger] end_marker_at(s, i),
    ensures
        end_from(s, from) is None,
    decreases s.len() - from,
{
    if from + 1 < s.len() {
        assert(!end_marker_at(s, from));
        lemma_end_from_none(s, from + 1);
    }
}

/// A well-formed frame behind bytes that hold no start marker, followed by
/// anything (the next frame, say): `check` returns exactly the frame's
/// payload and leaves exactly what follows its end marker.
pub proof fn lemma_check_takes_first_frame(garbage: Seq<u8>, payload: Seq<u8>, rest: Seq<u8>)
    requires
        no_start_marker(garbage),
        no_end_marker(payload),
    ensures
        check_model(garbage + start_marker() + payload + end_marker() + rest) == (
            Ok::<Seq<u8>, FrameCheckError>(payload),
            rest,
        ),
{
    let m = start_marker();
    let y = m + payload + end_marker() + rest;
    assert(y.subrange(0, 5) =~= m);
    assert(garbage + m + payload + end_marker() + rest =~= garbage + y);
    lemma_resync_skips(garbage, y);
    let j = 5 + payload.len() as int;
    assert(y[j] == 13u8 && y[j + 1] == 10u8);
    assert forall|i: int| 0 <= i < j implies !#[trigger] end_marker_at(y, i) by {
        if i < 5 {
            assert(y[i] == m[i]);
        } else if i + 1 < j {
            assert(y[i] == payload[i - 5] && y[i + 1] == payload[i - 4]);
            assert(!end_marker_at(payload, i - 5));
        } else {
            assert(y[i + 1] == 13u8);
        }
    }
    lemma_end_from_first(y, 0, j);
    assert(y.subrange(5, j) =~= payload);
    assert(y.subrange(j + 2, y.len() as int) =~= rest);
}

/// A buffer that opens with the start marker and holds no end marker is
/// incomplete: `check` reports `Incomplete` and keeps every byte.
pub proof fn lemma_marker_without_end_is_incomplete(t: Seq<u8>)
    requires
        no_end_marker(t),
    ensures
        check_model(start_marker() + t) == (
            Err::<Seq<u8>, FrameCheckError>(FrameCheckError::Incomplete),
            start_marker() + t,
        ),
{
    let m = start_marker();
    let x = m + t;
    assert(x.subrange(0, 5) =~= m);
    assert(resync(x) == x);
    assert forall|i: int| 0 <= i implies !#[trigger] end_marker_at(x, i) by {
        if i < 5 {
            assert(x[i] == m[i]);
        } else if i + 1 < x.len() {
            assert(x[i] == t[i - 5] && x[i + 1] == t[i - 4]);
            assert(!end_marker_at(t, i - 5));
        }
    }
    lemma_end_from_none(x, 0);
}

/// Whether the buffer starts with the start marker.
fn buffer_starts_with_marker(buffer: &BytesMut) -> (r: bool)
    requires
        buffer_bytes(*buffer).len() >= 5,
    ensures
        r == starts_with_marker(buffer_bytes(*buffer)),
{
    let ghost s = buffer_bytes(*buffer);
    let r = buffer_byte(buffer, 0) == 79u8 && buffer_byte(buffer, 1) == 75u8 && buffer_byte(
        buffer,
        2,
    ) == 32u8 && buffer_byte(buffer, 3) == 57u8 && buffer_byte(buffer, 4) == 32u8;
    assert(r == (s.subrange(0, 5) =~= start_marker()));
    r
}

/// Resynchronises the buffer on the start marker and takes out the first
/// complete frame, returning its payload.
fn check_frame(buffer: &mut BytesMut) -> (r: Result<BytesMut, FrameCheckError>)
    ensures
        (match r {
            Ok(b) => Ok(buffer_bytes(b)),
            Err(e) => Err(e),
        }, buffer_bytes(*final(buffer))) == check_model(buffer_bytes(*old(buffer))),
{
    let ghost start = buffer_bytes(*buffer);
    loop
        invariant
            start == buffer_bytes(*old(buffer)),
            resync(buffer_bytes(*buffer)) == resync(start),
        ensures
            start == buffer_bytes(*old(buffer)),
            buffer_bytes(*buffer) == resync(start),
            starts_with_marker(buffer_bytes(*buffer)),
        decreases buffer_bytes(*buffer).len(),
    {
        let n = buffer_len(buffer);
        if n < 5 {
            assert(resync(buffer_bytes(*buffer)) == buffer_bytes(*buffer));
            return Err(FrameCheckError::Incomplete);
        }
        if buffer_starts_with_marker(buffer) {
            assert(resync(buffer_bytes(*buffer)) == buffer_bytes(*buffer));
            break ;
        }
        let ghost before = buffer_bytes(*buffer);
        buffer_advance(buffer, 1);
        assert(buffer_bytes(*buffer) =~= before.drop_first());
    }
    let ghost r = buffer_bytes(*buffer);
    proof {
        lemma_no_end_in_marker(r);
    }
    let n = buffer_len(buffer);
    let mut i: usize = 0;
    while i + 1 < n
        invariant
            buffer_bytes(*buffer) == r,
            r == resync(buffer_bytes(*old(buffer))),
            n == r.len(),
            n >= 5,
            i + 1 <= n,
            end_from(r, 0) == end_from(r, i as int),
            end_from(r, 0) matches Some(j) ==> 5 <= j,
        decreases n - i,
    {
        if buffer_byte(buffer, i) == 13u8 && buffer_byte(buffer, i + 1) == 10u8 {
            proof {
                lemma_end_from_bounds(r, 0);
            }
            assert(end_marker_at(r, i as int));
            assert(end_from(r, i as int) == Some(i as int));
            let mut frame_data = buffer_split_to(buffer, i);
            buffer_advance(&mut frame_data, 5);
            buffer_advance(buffer, 2);
            assert(buffer_bytes(frame_data) =~= r.subrange(5, i as int));
            assert(buffer_bytes(*buffer) =~= r.subrange(i + 2, r.len() as int));
            return Ok(frame_data);
        }
        i = i + 1;
    }
    Err(FrameCheckError::Incomplete)
}

/// A character that validation lets through: numeric, whitespace, or a
/// control character.
pub open spec fn allowed_char(c: char) -> bool {
    numeric_char(c) || whitespace_char(c) || ascii_control(c) || control_char(c)
}

pub open spec fn all_allowed(s: Seq<char>) -> bool {
    forall|i: int| 0 <= i < s.len() ==> allowed_char(#[trigger] s[i])
}

/// How many whitespace characters a text holds.
pub open spec fn whitespace_count(s: Seq<char>) -> nat
    decreases s.len(),
{
    if s.len() == 0 {
        0
    } else {
        whitespace_count(s.drop_last()) + if whitespace_char(s.last()) {
            1nat
        } else {
            0nat
        }
    }
}

/// Why validation rejects a payload text, if it does.
pub open spec fn validation_fault(s: Seq<char>) -> Option<DecodeFault> {
    if !all_allowed(s) {
        Some(DecodeFault::InvalidChars(s))
    } else if whitespace_count(s) != 4 {
        Some(DecodeFault::WrongNumberOfFields(s))
    } else {
        None
    }
}

/// The pieces of a text between space characters, as `str::split(' ')`
/// yields them (empty pieces included).
pub open spec fn split_spaces(s: Seq<char>) -> Seq<Seq<char>>
    decreases s.len(),
{
    if s.len() == 0 {
        seq![Seq::empty()]
    } else {
        let p = split_spaces(s.drop_last());
        if s.last() == ' ' {
            p.push(Seq::empty())
        } else {
            p.update(p.len() - 1, p.last().push(s.last()))
        }
    }
}

/// The reading that five fields stand for, if each is a number in its range.
/// Each field is a byte; the third and fourth are the temperature's high and
/// low byte, in tenths of a degree above -100.
pub open spec fn frame_from_fields(f: Seq<Seq<char>>) -> Option<JeeLinkFrame> {
    match (
        bounded_value(f[0], 255),
        bounded_value(f[1], 255),
        bounded_value(f[2], 255),
        bounded_value(f[3], 255),
        bounded_value(f[4], 255),
    ) {
        (Some(id), Some(flags), Some(hi), Some(lo), Some(status)) => Some(
            JeeLinkFrame {
                id: id as u8,
                sensor_type: (flags % 128) as u8,
                new_battery: flags / 128 != 0,
                weak_battery: status >= 128,
                temperature: (hi * 256 + lo - 1000) as i32,
                humidity: (status % 128) as u8,
            },
        ),
        _ => None,
    }
}

/// What decoding makes of a payload text.
pub open spec fn decode_text(s: Seq<char>) -> Result<JeeLinkFrame, DecodeFault> {
    match validation_fault(s) {
        Some(f) => Err(f),
        None => {
            let f = split_spaces(s);
            if f.len() != 5 {
                Err(DecodeFault::Format)
            } else {
                match frame_from_fields(f) {
                    Some(frame) => Ok(frame),
                    None => Err(DecodeFault::Format),
                }
            }
        },
    }
}

/// What decoding makes of a payload.
pub open spec fn decode_model(b: Seq<u8>) -> Result<JeeLinkFrame, DecodeFault> {
    if !valid_utf8(b) {
        Err(DecodeFault::NotUtf8)
    } else {
        decode_text(decode_utf8(b))
    }
}

/// The fields of a text, split at each space.
fn split_on_space(chars: &Vec<char>) -> (r: Vec<Vec<char>>)
    ensures
        r@.map_values(|f: Vec<char>| f@) == split_spaces(chars@),
{
    let mut fields: Vec<Vec<char>> = Vec::new();
    let mut cur: Vec<char> = Vec::new();
    let n = chars.len();
    let mut i: usize = 0;
    assert(chars@.take(0) =~= Seq::<char>::empty());
    assert(fields@.map_values(|f: Vec<char>| f@).push(cur@) =~= seq![Seq::<char>::empty()]);
    while i < n
        invariant
            n == chars@.len(),
            i <= n,
            fields@.map_values(|f: Vec<char>| f@).push(cur@) == split_spaces(
                chars@.take(i as int),
            ),
        decreases n - i,
    {
        let c = chars[i];
        let ghost t = chars@.take(i + 1);
        assert(t.drop_last() =~= chars@.take(i as int));
        assert(t.last() == c);
        let ghost before = fields@.map_values(|f: Vec<char>| f@);
        if c == ' ' {
            let done = cur;
            fields.push(done);
            cur = Vec::new();
            assert(fields@.map_values(|f: Vec<char>| f@) =~= before.push(done@));
        } else {
            cur.push(c);
            assert(fields@.map_values(|f: Vec<char>| f@) =~= before);
        }
        i = i + 1;
        assert(fields@.map_values(|f: Vec<char>| f@).push(cur@) =~= split_spaces(t));
    }
    let ghost before = fields@.map_values(|f: Vec<char>| f@);
    fields.push(cur);
    assert(chars@.take(n as int) =~= chars@);
    assert(fields@.map_values(|f: Vec<char>| f@) =~= before.push(cur@));
    fields
}

impl JeeLinkFrame {
    /// Checks that a payload text can be decoded: every character is
    /// numeric, whitespace or a control character, and exactly four are
    /// whitespace.
    pub fn validate(s: &str) -> (r: Result<(), FrameValidation>)
        ensures
            match validation_fault(s@) {
                None => r is Ok,
                Some(f) => r matches Err(e) && e.fault() == f,
            },
    {
        let chars = chars_of(s);
        let n = chars.len();
        let mut i: usize = 0;
        while i < n
            invariant
                n == chars@.len(),
                chars@ == s@,
                i <= n,
                forall|k: int| 0 <= k < i ==> allowed_char(#[trigger] chars@[k]),
            decreases n - i,
        {
            let c = chars[i];
            if !(is_numeric(c) || is_whitespace(c) || is_ascii_control(c) || is_control(c)) {
                assert(!allowed_char(chars@[i as int]));
                return Err(FrameValidation::InvalidChars(s.to_owned()));
            }
            i = i + 1;
        }
        let mut count: usize = 0;
        let mut j: usize = 0;
        while j < n
            invariant
                n == chars@.len(),
                j <= n,
                count <= j,
                count == whitespace_count(chars@.take(j as int)),
            decreases n - j,
        {
            let ghost t = chars@.take(j + 1);
            assert(t.drop_last() =~= chars@.take(j as int));
            if is_whitespace(chars[j]) {
                count = count + 1;
            }
            j = j + 1;
        }
        assert(chars@.take(n as int) =~= chars@);
        if count != 4 {
            return Err(FrameValidation::WrongNumberOfFields(s.to_owned()));
        }
        Ok(())
    }
}

/// The bytes of a buffer, copied into a vector.
fn buffer_to_vec(b: &BytesMut) -> (r: Vec<u8>)
    ensures
        r@ == buffer_bytes(*b),
{
    let n = buffer_len(b);
    let mut v: Vec<u8> = Vec::new();
    let mut i: usize = 0;
    while i < n
        invariant
            n == buffer_bytes(*b).len(),
            i <= n,
            v@ == buffer_bytes(*b).take(i as int),
        decreases n - i,
    {
        v.push(buffer_byte(b, i));
        i = i + 1;
        assert(v@ =~= buffer_bytes(*b).take(i as int));
    }
    assert(v@ =~= buffer_bytes(*b));
    v
}

/// Builds the reading from its five fields.
fn frame_from(fields: &Vec<Vec<char>>) -> (r: Option<JeeLinkFrame>)
    requires
        fields@.len() == 5,
    ensures
        r == frame_from_fields(fields@.map_values(|f: Vec<char>| f@)),
{
    let ghost f = fields@.map_values(|f: Vec<char>| f@);
    assert(f[0] == fields[0]@ && f[1] == fields[1]@ && f[2] == fields[2]@ && f[3] == fields[3]@
        && f[4] == fields[4]@);
    let id = match parse_unsigned(&fields[0], 255) {
        Some(v) => v as u8,
        None => return None,
    };
    let flags = match parse_unsigned(&fields[1], 255) {
        Some(v) => v as u8,
        None => return None,
    };
    let hi = match parse_unsigned(&fields[2], 255) {
        Some(v) => v as u16,
        None => return None,
    };
    let lo = match parse_unsigned(&fields[3], 255) {
        Some(v) => v as u16,
        None => return None,
    };
    let status = match parse_unsigned(&fields[4], 255) {
        Some(v) => v as u8,
        None => return None,
    };
    let shifted: u16 = hi << 8u16;
    assert(shifted == hi * 256) by (bit_vector)
        requires
            hi <= 255,
            shifted == hi << 8u16,
    ;
    let t: u16 = shifted + lo;
    let weak_battery = status & 0x80u8 != 0;
    let humidity = status & 0x7fu8;
    assert(weak_battery == (status >= 128)) by (bit_vector)
        requires
            weak_battery == (status & 0x80u8 != 0),
    ;
    assert(humidity == status % 128) by (bit_vector)
        requires
            humidity == status & 0x7fu8,
    ;
    Some(
        JeeLinkFrame {
            id,
            sensor_type: flags % 128,
            new_battery: flags / 128 != 0,
            weak_battery,
            temperature: t as i32 - 1000,
            humidity,
        },
    )
}

impl Frame for JeeLinkFrame {
    open spec fn check_spec(before: Seq<u8>) -> (Result<Seq<u8>, FrameCheckError>, Seq<u8>) {
        check_model(before)
    }

    open spec fn parse_spec(payload: Seq<u8>) -> Result<JeeLinkFrame, DecodeFault> {
        decode_model(payload)
    }

    fn check(buffer: &mut BytesMut) -> (r: Result<BytesMut, FrameCheckError>) {
        check_frame(buffer)
    }

    fn parse(buffer: BytesMut) -> (r: Result<JeeLinkFrame, DecodeError>) {
        let bytes = buffer_to_vec(&buffer);
        let s = match utf8_text(bytes.as_slice()) {
            Some(s) => s,
            None => return Err(DecodeError::NotUtf8),
        };
        match JeeLinkFrame::validate(s) {
            Ok(()) => {},
            Err(e) => return Err(DecodeError::Validation(e)),
        }
        let chars = chars_of(s);
        let fields = split_on_space(&chars);
        if fields.len() != 5 {
            return Err(DecodeError::Format);
        }
        match frame_from(&fields) {
            Some(frame) => Ok(frame),
            None => Err(DecodeError::Format),
        }
    }
}

proof fn lemma_resync_keeps_some(s: Seq<u8>)
    requires
        s.len() > 0,
    ensures
        resync(s).len() > 0,
    decreases s.len(),
{
    if !(s.len() < 5 || starts_with_marker(s)) {
        lemma_resync_keeps_some(s.drop_first());
    }
}

/// A source that reports itself closed while the buffer holds bytes but no
/// complete frame: the extractor reports a lost connection.
pub proof fn lemma_closed_with_partial_frame_is_lost(buffered: Seq<u8>, v: Vec<u8>)
    requires
        buffered.len() > 0,
        check_model(buffered).0 == Err::<Seq<u8>, FrameCheckError>(FrameCheckError::Incomplete),
        v@.len() == 0,
    ensures
        listen::<JeeLinkFrame>(buffered, seq![ReadEvent::Bytes(v)]) == Outcome::<
            JeeLinkFrame,
        >::Lost,
{
    lemma_resync_keeps_some(buffered);
}

/// A source that reports itself closed while nothing is buffered: the
/// stream ended cleanly.
pub proof fn lemma_closed_when_empty_is_end(v: Vec<u8>)
    requires
        v@.len() == 0,
    ensures
        listen::<JeeLinkFrame>(Seq::empty(), seq![ReadEvent::Bytes(v)]) == Outcome::<
            JeeLinkFrame,
        >::Ended,
{
}

/// A source that times out any number of times and then delivers a whole
/// frame: the extractor yields that frame's reading.
pub proof fn lemma_timeouts_then_frame(timeouts: nat, v: Vec<u8>, payload: Seq<u8>)
    requires
        v@ == start_marker() + payload + end_marker(),
        no_end_marker(payload),
        decode_model(payload) is Ok,
    ensures
        listen::<JeeLinkFrame>(
            Seq::empty(),
            Seq::new(timeouts, |i: int| ReadEvent::TimedOut).push(ReadEvent::Bytes(v)),
        ) == Outcome::Frame(decode_model(payload)->Ok_0),
    decreases timeouts,
{
    let events = Seq::new(timeouts, |i: int| ReadEvent::TimedOut).push(ReadEvent::Bytes(v));
    assert(check_model(Seq::empty()).0 == Err::<Seq<u8>, FrameCheckError>(
        FrameCheckError::Incomplete,
    ));
    if timeouts == 0 {
        assert(events.drop_first() =~= Seq::<ReadEvent>::empty());
        assert(Seq::<u8>::empty() + v@ =~= Seq::<u8>::empty() + start_marker() + payload
            + end_marker() + Seq::empty());
        assert(no_start_marker(Seq::empty()));
        lemma_check_takes_first_frame(Seq::empty(), payload, Seq::empty());
        assert(check_model(Seq::<u8>::empty() + v@).0 == Ok::<Seq<u8>, FrameCheckError>(payload));
        assert(listen::<JeeLinkFrame>(Seq::<u8>::empty() + v@, Seq::empty()) == Outcome::Frame(
            decode_model(payload)->Ok_0,
        ));
        assert(events[0] == ReadEvent::Bytes(v));
    } else {
        let t1 = (timeouts - 1) as nat;
        assert(events.drop_first() =~= Seq::new(t1, |i: int| ReadEvent::TimedOut).push(
            ReadEvent::Bytes(v),
        ));
        lemma_timeouts_then_frame(t1, v, payload);
        assert(events[0] == ReadEvent::TimedOut);
    }
}

/// A text holding a character that is neither numeric, nor whitespace, nor
/// a control character fails validation with `InvalidChars`, before the
/// separators are counted.
pub proof fn lemma_invalid_char_fails_validation(s: Seq<char>, i: int)
    requires
        0 <= i < s.len(),
        !numeric_char(s[i]),
        !whitespace_char(s[i]),
        !control_char(s[i]),
    ensures
        validation_fault(s) == Some(DecodeFault::InvalidChars(s)),
        decode_text(s) == Err::<JeeLinkFrame, DecodeFault>(DecodeFault::InvalidChars(s)),
{
    assert(!allowed_char(s[i]));
}

/// A payload whose text holds a character that is neither numeric, nor
/// whitespace, nor a control character fails validation with
/// `InvalidChars`.
pub proof fn lemma_invalid_char_payload_fails_validation(payload: Seq<u8>, i: int)
    requires
        valid_utf8(payload),
        0 <= i < decode_utf8(payload).len(),
        !numeric_char(decode_utf8(payload)[i]),
        !whitespace_char(decode_utf8(payload)[i]),
        !control_char(decode_utf8(payload)[i]),
    ensures
        decode_model(payload) == Err::<JeeLinkFrame, DecodeFault>(
            DecodeFault::InvalidChars(decode_utf8(payload)),
        ),
{
    lemma_invalid_char_fails_validation(decode_utf8(payload), i);
}

/// A payload whose whitespace separators are not exactly four fails
/// validation.
pub proof fn lemma_separator_count_fails_validation(payload: Seq<u8>)
    requires
        valid_utf8(payload),
        whitespace_count(decode_utf8(payload)) != 4,
    ensures
        decode_model(payload) matches Err(f) && (f is InvalidChars || f is WrongNumberOfFields),
{
}

} // verus!
