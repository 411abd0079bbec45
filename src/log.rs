use vstd::prelude::*;
use vstd::string::StringSliceAdditionalSpecFns;

use crate::render::{append_bytes, interpolate, line_of, placeholder_count, render, render_line, value_bytes};

verus! {

/// Severity code of the native log sink for informational output.
pub const LOG_LEVEL_INFO: u32 = 1;

/// A message for the native log sink: a severity code and the bytes to append.
pub struct LogRecord {
    pub level: u32,
    pub text: Vec<u8>,
}

/// The stateless handle that forwards text to the native log sink.
pub struct Writer {}

impl Writer {
    /// Creates the writer handle.
    pub fn new() -> (r: Writer) {
        Writer {  }
    }

    /// The record that forwards `b`, unmodified, at the informational level.
    pub fn write_bytes(&mut self, b: &[u8]) -> (r: LogRecord)
        ensures
            r.level == LOG_LEVEL_INFO,
            r.text@ == b@,
    {
        let mut text: Vec<u8> = Vec::new();
        append_bytes(&mut text, b);
        assert(text@ =~= b@);
        LogRecord { level: LOG_LEVEL_INFO, text }
    }

    /// The record that forwards the UTF-8 bytes of `s`, unmodified, at the
    /// informational level.
    pub fn write_str(&mut self, s: &str) -> (r: LogRecord)
        ensures
            r.level == LOG_LEVEL_INFO,
            r.text@ == s.spec_bytes(),
    {
        self.write_bytes(s.as_bytes())
    }
}

/// Renders `template` with `values` and hands the text to `writer`. Returns
/// `None`, and writes nothing, when the template's placeholders and the values
/// differ in number.
pub fn _print(writer: &mut Writer, template: &str, values: &Vec<String>) -> (r: Option<LogRecord>)
    ensures
        r is Some <==> placeholder_count(template.spec_bytes()) == values@.len(),
        r matches Some(rec) ==> rec.level == LOG_LEVEL_INFO && rec.text@ == interpolate(
            template.spec_bytes(),
            value_bytes(values@),
        ),
{
    match render(template, values) {
        Some(text) => Some(writer.write_bytes(text.as_slice())),
        None => None,
    }
}

/// Renders `template` with `values`, appends one line terminator and hands
/// the text to `writer`. Returns `None`, and writes nothing, when the
/// template's placeholders and the values differ in number.
pub fn _println(writer: &mut Writer, template: &str, values: &Vec<String>) -> (r: Option<
    LogRecord,
>)
    ensures
        r is Some <==> placeholder_count(template.spec_bytes()) == values@.len(),
        r matches Some(rec) ==> rec.level == LOG_LEVEL_INFO && rec.text@ == line_of(
            template.spec_bytes(),
            value_bytes(values@),
        ),
{
    match render_line(template, values) {
        Some(text) => Some(writer.write_bytes(text.as_slice())),
        None => None,
    }
}

} // verus!
