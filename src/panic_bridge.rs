use vstd::prelude::*;
use vstd::string::{is_ascii, is_ascii_spec_bytes, StringSliceAdditionalSpecFns};
use vstd::utf8::encode_utf8;

use crate::log::{LOG_LEVEL_INFO, LogRecord, Writer, _println};
use crate::render::{
    append_bytes, lemma_literal_prefix, lemma_placeholder_head, line_of, value_bytes, CLOSE_BRACE,
    NEWLINE, OPEN_BRACE,
};

verus! {

/// The two states of the fault bridge: installed and waiting, or handed over
/// to the native panic routine for good.
#[derive(PartialEq, Eq, Structural, Clone, Copy, Debug)]
pub enum BridgeState {
    Armed,
    Diverged,
}

/// What the fault bridge asks of the native side: one diagnostic line for the
/// log sink, then one call of the panic routine with a fixed message.
pub struct PanicAction {
    pub diagnostic: LogRecord,
    pub halt_message: Vec<u8>,
}

/// The fault handler's state machine.
pub struct PanicBridge {
    pub state: BridgeState,
}

/// The diagnostic line for a fault at `location` with `cause`.
pub open spec fn diagnostic_line(location: Seq<u8>, cause: Seq<u8>) -> Seq<u8> {
    "panicked at ".spec_bytes() + location + ":\n".spec_bytes() + cause + seq![NEWLINE]
}

/// The fixed message handed to the native panic routine on every fault.
pub open spec fn halt_text() -> Seq<u8> {
    "Rust panic\n".spec_bytes()
}

impl PanicBridge {
    /// A bridge that is installed and waiting for a fault.
    pub fn new() -> (r: PanicBridge)
        ensures
            r.state == BridgeState::Armed,
    {
        PanicBridge { state: BridgeState::Armed }
    }

    /// Whether no fault has been handled yet.
    pub fn is_armed(&self) -> (r: bool)
        ensures
            r == (self.state == BridgeState::Armed),
    {
        self.state == BridgeState::Armed
    }

    /// Handles a fault at `location` with `cause`: the bridge diverges for good,
    /// and the action holds the diagnostic line, written at the informational
    /// level, and the fixed message for the native panic routine.
    pub fn on_fault(&mut self, writer: &mut Writer, location: String, cause: String) -> (r:
        PanicAction)
        ensures
            final(self).state == BridgeState::Diverged,
            r.diagnostic.level == LOG_LEVEL_INFO,
            r.diagnostic.text@ == diagnostic_line(encode_utf8(location@), encode_utf8(cause@)),
            r.halt_message@ == halt_text(),
    {
        let template = "panicked at {}:\n{}";
        let ghost loc = encode_utf8(location@);
        let ghost cau = encode_utf8(cause@);
        let values = vec![location, cause];
        proof {
            lemma_diagnostic_template(values@, loc, cau);
        }
        self.state = BridgeState::Diverged;
        let diagnostic = _println(writer, template, &values).unwrap();
        let mut halt_message: Vec<u8> = Vec::new();
        append_bytes(&mut halt_message, "Rust panic\n".as_bytes());
        PanicAction { diagnostic, halt_message }
    }
}

/// The diagnostic template has two placeholders and renders a location and a
/// cause into the diagnostic line.
proof fn lemma_diagnostic_template(values: Seq<String>, loc: Seq<u8>, cau: Seq<u8>)
    requires
        values.len() == 2,
        encode_utf8(values[0]@) == loc,
        encode_utf8(values[1]@) == cau,
    ensures
        crate::render::placeholder_count("panicked at {}:\n{}".spec_bytes()) == 2,
        line_of("panicked at {}:\n{}".spec_bytes(), value_bytes(values)) == diagnostic_line(
            loc,
            cau,
        ),
{
    broadcast use is_ascii_spec_bytes;

    reveal_strlit("panicked at {}:\n{}");
    reveal_strlit("panicked at ");
    reveal_strlit(":\n");
    let full = "panicked at {}:\n{}";
    let pre = "panicked at ";
    let mid = ":\n";
    assert(is_ascii(full));
    assert(is_ascii(pre));
    assert(is_ascii(mid));
    let p = pre.spec_bytes();
    let q = mid.spec_bytes();
    let ph = seq![OPEN_BRACE, CLOSE_BRACE];
    let vals = value_bytes(values);
    assert(full.spec_bytes() =~= p + (ph + (q + (ph + Seq::<u8>::empty()))));
    lemma_literal_prefix(p, ph + (q + (ph + Seq::<u8>::empty())), vals);
    lemma_placeholder_head(q + (ph + Seq::<u8>::empty()), vals);
    let vals1 = vals.subrange(1, 2);
    lemma_literal_prefix(q, ph + Seq::<u8>::empty(), vals1);
    lemma_placeholder_head(Seq::<u8>::empty(), vals1);
    assert(vals1.subrange(1, 1) =~= Seq::<Seq<u8>>::empty());
    assert(crate::render::interpolate(Seq::<u8>::empty(), vals1.subrange(1, 1)) == Seq::<
        u8,
    >::empty());
    assert(line_of(full.spec_bytes(), vals) =~= diagnostic_line(loc, cau));
}

} // verus!
