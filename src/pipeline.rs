//! The choices a front end offers: which gateway protocol to read, and how
//! to print each reading.

use crate::jeelink::BAUD_RATE;
use crate::output::{line_text, ToOutput};
use vstd::prelude::*;

verus! {

/// The input protocols.
#[derive(Debug, Clone, Copy, PartialEq, Eq, Structural)]
pub enum ProtoEnum {
    /// JeeLink v3.
    Jeelink,
}

/// The output formats.
#[derive(Debug, Clone, Copy, PartialEq, Eq, Structural)]
pub enum OutEnum {
    /// Plain text.
    Stringify,
    /// InfluxDB line protocol.
    Influxdb,
}

/// How to open the serial device that a protocol is read from.
#[derive(Debug)]
pub struct ReaderConfig {
    pub protocol: ProtoEnum,
    pub path: String,
    pub baud_rate: u32,
}

/// The serial settings for reading `input` from the device at `path`.
pub fn make_reader(input: ProtoEnum, path: String) -> (r: ReaderConfig)
    ensures
        r.protocol == input,
        r.path == path,
        r.baud_rate == BAUD_RATE,
{
    match input {
        ProtoEnum::Jeelink => ReaderConfig { protocol: input, path, baud_rate: BAUD_RATE },
    }
}

/// A reading in the chosen format: plain text, or a line of the line
/// protocol stamped with the time now.
pub fn to_output<T: ToOutput>(output: OutEnum, frame: &T) -> (r: String)
    ensures
        output == OutEnum::Stringify ==> r@ == frame.text(),
        output == OutEnum::Influxdb ==> exists|t: Option<i64>| r@ == line_text(#[trigger] frame.point_at(t)),
{
    match output {
        OutEnum::Stringify => frame.to_text(),
        OutEnum::Influxdb => {
            let p = frame.to_lineprotocol();
            p.to_string()
        },
    }
}

} // verus!
