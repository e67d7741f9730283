//! A bounded parser for the operating system commands inside terminal output.
//!
//! Only titles, tab status and progress reports are of interest. Everything else passes unseen, and
//! a payload over the bound is discarded up to its end.

use crate::text::bytes_spell;
use vstd::prelude::*;
use vstd::utf8::encode_utf8;

verus! {

/// The longest payload that is kept.
pub const OSC_PAYLOAD_MAX_BYTES: usize = 256;

/// The longest command number.
pub const OSC_COMMAND_MAX_BYTES: usize = 5;

/// The commands whose payload is kept.
#[derive(Clone, Copy, Debug, PartialEq, Eq, Structural)]
pub enum OscPayloadKind {
    Title,
    ClaudeStatus,
    ItermProgress,
}

/// A command that was read completely.
#[derive(Debug, PartialEq, Eq)]
pub enum OscEvent {
    Title(Vec<u8>),
    ClaudeStatus(Vec<u8>),
    ItermProgress(Vec<u8>),
}

/// The content of an [`OscEvent`].
#[verifier::ext_equal]
pub struct OscEventModel {
    pub kind: OscPayloadKind,
    pub payload: Seq<u8>,
}

impl View for OscEvent {
    type V = OscEventModel;

    open spec fn view(&self) -> OscEventModel {
        match self {
            OscEvent::Title(payload) => OscEventModel {
                kind: OscPayloadKind::Title,
                payload: payload@,
            },
            OscEvent::ClaudeStatus(payload) => OscEventModel {
                kind: OscPayloadKind::ClaudeStatus,
                payload: payload@,
            },
            OscEvent::ItermProgress(payload) => OscEventModel {
                kind: OscPayloadKind::ItermProgress,
                payload: payload@,
            },
        }
    }
}

/// The contents of a sequence of events.
pub open spec fn osc_models(events: Seq<OscEvent>) -> Seq<OscEventModel> {
    Seq::new(events.len(), |i: int| events[i]@)
}

impl OscPayloadKind {
    /// The event of a payload.
    pub fn event(self, payload: Vec<u8>) -> (event: OscEvent)
        ensures
            event@ == (OscEventModel { kind: self, payload: payload@ }),
    {
        match self {
            OscPayloadKind::Title => OscEvent::Title(payload),
            OscPayloadKind::ClaudeStatus => OscEvent::ClaudeStatus(payload),
            OscPayloadKind::ItermProgress => OscEvent::ItermProgress(payload),
        }
    }
}

/// Where the parser stands.
#[derive(Debug)]
pub enum OscParserState {
    Ground,
    Escape,
    Command(Vec<u8>),
    Payload(OscPayloadKind, Vec<u8>),
    PayloadEscape(OscPayloadKind, Vec<u8>),
    Discard,
    DiscardEscape,
}

/// The content of an [`OscParserState`].
pub enum OscModel {
    Ground,
    Escape,
    Command(Seq<u8>),
    Payload(OscPayloadKind, Seq<u8>),
    PayloadEscape(OscPayloadKind, Seq<u8>),
    Discard,
    DiscardEscape,
}

impl View for OscParserState {
    type V = OscModel;

    open spec fn view(&self) -> OscModel {
        match self {
            OscParserState::Ground => OscModel::Ground,
            OscParserState::Escape => OscModel::Escape,
            OscParserState::Command(digits) => OscModel::Command(digits@),
            OscParserState::Payload(kind, payload) => OscModel::Payload(*kind, payload@),
            OscParserState::PayloadEscape(kind, payload) => OscModel::PayloadEscape(*kind, payload@),
            OscParserState::Discard => OscModel::Discard,
            OscParserState::DiscardEscape => OscModel::DiscardEscape,
        }
    }
}

/// The command of a number, if its payload is kept.
pub open spec fn command_kind(digits: Seq<u8>) -> Option<OscPayloadKind> {
    if digits == encode_utf8("0"@) || digits == encode_utf8("2"@) {
        Some(OscPayloadKind::Title)
    } else if digits == encode_utf8("9"@) {
        Some(OscPayloadKind::ItermProgress)
    } else if digits == encode_utf8("21337"@) {
        Some(OscPayloadKind::ClaudeStatus)
    } else {
        None
    }
}

impl OscModel {
    /// Buffers stay within their bounds.
    pub open spec fn wf(self) -> bool {
        match self {
            OscModel::Command(digits) => digits.len() <= OSC_COMMAND_MAX_BYTES,
            OscModel::Payload(_, payload) => payload.len() <= OSC_PAYLOAD_MAX_BYTES,
            OscModel::PayloadEscape(_, payload) => payload.len() <= OSC_PAYLOAD_MAX_BYTES,
            _ => true,
        }
    }

    /// The parser after one byte, and the event that the byte completes.
    pub open spec fn step(self, byte: u8) -> (OscModel, Option<OscEventModel>) {
        match self {
            OscModel::Ground => if byte == 0x1b {
                (OscModel::Escape, None)
            } else {
                (OscModel::Ground, None)
            },
            OscModel::Escape => if byte == 0x5d {
                (OscModel::Command(Seq::empty()), None)
            } else if byte == 0x1b {
                (OscModel::Escape, None)
            } else {
                (OscModel::Ground, None)
            },
            OscModel::Command(digits) => if 0x30 <= byte <= 0x39 && digits.len()
                < OSC_COMMAND_MAX_BYTES {
                (OscModel::Command(digits.push(byte)), None)
            } else if byte == 0x3b {
                match command_kind(digits) {
                    Some(kind) => (OscModel::Payload(kind, Seq::empty()), None),
                    None => (OscModel::Discard, None),
                }
            } else if byte == 0x07 {
                (OscModel::Ground, None)
            } else if byte == 0x1b {
                (OscModel::DiscardEscape, None)
            } else {
                (OscModel::Discard, None)
            },
            OscModel::Payload(kind, payload) => if byte == 0x07 {
                (OscModel::Ground, Some(OscEventModel { kind, payload }))
            } else if byte == 0x1b {
                (OscModel::PayloadEscape(kind, payload), None)
            } else if payload.len() < OSC_PAYLOAD_MAX_BYTES {
                (OscModel::Payload(kind, payload.push(byte)), None)
            } else {
                (OscModel::Discard, None)
            },
            OscModel::PayloadEscape(kind, payload) => if byte == 0x5c {
                (OscModel::Ground, Some(OscEventModel { kind, payload }))
            } else if byte == 0x07 {
                (OscModel::Ground, None)
            } else if byte == 0x1b {
                (OscModel::DiscardEscape, None)
            } else {
                (OscModel::Discard, None)
            },
            OscModel::Discard => if byte == 0x07 {
                (OscModel::Ground, None)
            } else if byte == 0x1b {
                (OscModel::DiscardEscape, None)
            } else {
                (OscModel::Discard, None)
            },
            OscModel::DiscardEscape => if byte == 0x5c || byte == 0x07 {
                (OscModel::Ground, None)
            } else if byte == 0x1b {
                (OscModel::DiscardEscape, None)
            } else {
                (OscModel::Discard, None)
            },
        }
    }

    /// The parser after several bytes, and the events that they complete.
    pub open spec fn run(self, bytes: Seq<u8>) -> (OscModel, Seq<OscEventModel>)
        decreases bytes.len(),
    {
        if bytes.len() == 0 {
            (self, Seq::empty())
        } else {
            let (state, events) = self.run(bytes.drop_last());
            match state.step(bytes.last()) {
                (next, Some(event)) => (next, events.push(event)),
                (next, None) => (next, events),
            }
        }
    }
}

/// The parser, which keeps its place between pieces of output.
#[derive(Debug)]
pub struct BoundedOscParser {
    state: OscParserState,
}

impl View for BoundedOscParser {
    type V = OscModel;

    closed spec fn view(&self) -> OscModel {
        self.state@
    }
}

impl Default for BoundedOscParser {
    fn default() -> (parser: Self)
        ensures
            parser@ == OscModel::Ground,
            parser.wf(),
    {
        BoundedOscParser { state: OscParserState::Ground }
    }
}

fn kind_of_command(digits: &Vec<u8>) -> (kind: Option<OscPayloadKind>)
    ensures
        kind == command_kind(digits@),
{
    let bytes = digits.as_slice();
    if bytes_spell(bytes, "0") || bytes_spell(bytes, "2") {
        Some(OscPayloadKind::Title)
    } else if bytes_spell(bytes, "9") {
        Some(OscPayloadKind::ItermProgress)
    } else if bytes_spell(bytes, "21337") {
        Some(OscPayloadKind::ClaudeStatus)
    } else {
        None
    }
}

fn step_state(state: OscParserState, byte: u8) -> (res: (OscParserState, Option<OscEvent>))
    requires
        state@.wf(),
    ensures
        res.0@.wf(),
        res.0@ == state@.step(byte).0,
        match res.1 {
            Some(event) => state@.step(byte).1 == Some(event@),
            None => state@.step(byte).1 is None,
        },
{
    match state {
        OscParserState::Ground => {
            if byte == 0x1b {
                (OscParserState::Escape, None)
            } else {
                (OscParserState::Ground, None)
            }
        },
        OscParserState::Escape => {
            if byte == 0x5d {
                let digits: Vec<u8> = Vec::new();
                assert(digits@ =~= Seq::<u8>::empty());
                (OscParserState::Command(digits), None)
            } else if byte == 0x1b {
                (OscParserState::Escape, None)
            } else {
                (OscParserState::Ground, None)
            }
        },
        OscParserState::Command(digits) => {
            let mut digits = digits;
            if 0x30 <= byte && byte <= 0x39 && digits.len() < OSC_COMMAND_MAX_BYTES {
                digits.push(byte);
                (OscParserState::Command(digits), None)
            } else if byte == 0x3b {
                match kind_of_command(&digits) {
                    Some(kind) => {
                        let payload: Vec<u8> = Vec::new();
                        assert(payload@ =~= Seq::<u8>::empty());
                        (OscParserState::Payload(kind, payload), None)
                    },
                    None => (OscParserState::Discard, None),
                }
            } else if byte == 0x07 {
                (OscParserState::Ground, None)
            } else if byte == 0x1b {
                (OscParserState::DiscardEscape, None)
            } else {
                (OscParserState::Discard, None)
            }
        },
        OscParserState::Payload(kind, payload) => {
            let mut payload = payload;
            if byte == 0x07 {
                (OscParserState::Ground, Some(kind.event(payload)))
            } else if byte == 0x1b {
                (OscParserState::PayloadEscape(kind, payload), None)
            } else if payload.len() < OSC_PAYLOAD_MAX_BYTES {
                payload.push(byte);
                (OscParserState::Payload(kind, payload), None)
            } else {
                (OscParserState::Discard, None)
            }
        },
        OscParserState::PayloadEscape(kind, payload) => {
            if byte == 0x5c {
                (OscParserState::Ground, Some(kind.event(payload)))
            } else if byte == 0x07 {
                (OscParserState::Ground, None)
            } else if byte == 0x1b {
                (OscParserState::DiscardEscape, None)
            } else {
                (OscParserState::Discard, None)
            }
        },
        OscParserState::Discard => {
            if byte == 0x07 {
                (OscParserState::Ground, None)
            } else if byte == 0x1b {
                (OscParserState::DiscardEscape, None)
            } else {
                (OscParserState::Discard, None)
            }
        },
        OscParserState::DiscardEscape => {
            if byte == 0x5c || byte == 0x07 {
                (OscParserState::Ground, None)
            } else if byte == 0x1b {
                (OscParserState::DiscardEscape, None)
            } else {
                (OscParserState::Discard, None)
            }
        },
    }
}

impl BoundedOscParser {
    /// The buffers are within their bounds.
    pub open spec fn wf(&self) -> bool {
        self@.wf()
    }

    /// Reads a piece of output, and returns the commands that it completes.
    pub fn push(&mut self, bytes: &[u8]) -> (events: Vec<OscEvent>)
        requires
            old(self).wf(),
        ensures
            final(self).wf(),
            (final(self)@, osc_models(events@)) == old(self)@.run(bytes@),
    {
        let mut events: Vec<OscEvent> = Vec::new();
        let mut i: usize = 0;
        assert(bytes@.take(0) =~= Seq::<u8>::empty());
        assert(osc_models(events@) =~= Seq::<OscEventModel>::empty());
        while i < bytes.len()
            invariant
                i <= bytes@.len(),
                self.wf(),
                (self@, osc_models(events@)) == old(self)@.run(bytes@.take(i as int)),
            decreases bytes@.len() - i,
        {
            let ghost part = bytes@.take(i + 1);
            assert(part.drop_last() =~= bytes@.take(i as int));
            assert(part.last() == bytes@[i as int]);
            let ghost before = osc_models(events@);
            let mut state = OscParserState::Ground;
            std::mem::swap(&mut state, &mut self.state);
            let (next, event) = step_state(state, bytes[i]);
            self.state = next;
            if let Some(event) = event {
                let ghost model = event@;
                events.push(event);
                assert(osc_models(events@) =~= before.push(model));
            }
            i = i + 1;
        }
        assert(bytes@.take(i as int) =~= bytes@);
        events
    }
}

/// How output is cut into pieces makes no difference to the commands that are seen.
pub proof fn law_pieces_do_not_matter(parser: OscModel, first: Seq<u8>, second: Seq<u8>)
    ensures
        ({
            let (middle, early) = parser.run(first);
            let (end, late) = middle.run(second);
            parser.run(first + second) == (end, early + late)
        }),
    decreases second.len(),
{
    let (middle, early) = parser.run(first);
    if second.len() == 0 {
        assert(first + second =~= first);
        assert(early + Seq::<OscEventModel>::empty() =~= early);
    } else {
        law_pieces_do_not_matter(parser, first, second.drop_last());
        assert((first + second).drop_last() =~= first + second.drop_last());
        assert((first + second).last() == second.last());
        let (state, late) = middle.run(second.drop_last());
        if let (next, Some(event)) = state.step(second.last()) {
            assert(early + late.push(event) =~= (early + late).push(event));
        }
    }
}

/// No payload is longer than the bound, whatever the output was.
pub proof fn law_payloads_are_bounded(parser: OscModel, bytes: Seq<u8>)
    requires
        parser.wf(),
    ensures
        parser.run(bytes).0.wf(),
        forall|i: int|
            0 <= i < parser.run(bytes).1.len() ==> (#[trigger] parser.run(bytes).1[i]).payload.len()
                <= OSC_PAYLOAD_MAX_BYTES,
    decreases bytes.len(),
{
    if bytes.len() > 0 {
        law_payloads_are_bounded(parser, bytes.drop_last());
    }
}

} // verus!
