//! What titles, tab status and progress reports of coding agents say.
//!
//! Known gap: the title of [`SessionActivityAgent::ClaudeCode`] is missing here, so a title of that
//! agent is no hint to it.

use crate::pty::activity::osc::{OscEvent, OscEventModel, OscPayloadKind};
use crate::pty::activity::SessionActivityAgent;
use crate::text::{
    ascii_lowered, byte_views, bytes_spell, chars_contain, chars_equal, chars_start_with,
    contains_part, lower_chars, split_bytes, split_on, starts_with, str_chars, trim_chars, trimmed,
    utf8_text,
};
use vstd::prelude::*;
use vstd::slice::slice_subrange;
use vstd::utf8::{decode_utf8, encode_utf8, valid_utf8};

verus! {

// ---------------------------------------------------------------------------
// Titles

/// The number of bytes of a character in UTF-8.
pub open spec fn utf8_width(c: char) -> nat {
    if (c as u32) < 0x80 {
        1
    } else if (c as u32) < 0x800 {
        2
    } else if (c as u32) < 0x1_0000 {
        3
    } else {
        4
    }
}

/// The number of bytes of a text in UTF-8.
pub open spec fn utf8_len(s: Seq<char>) -> nat
    decreases s.len(),
{
    if s.len() == 0 {
        0
    } else {
        utf8_len(s.drop_last()) + utf8_width(s.last())
    }
}

/// A character stands first at a position.
pub open spec fn first_at(s: Seq<char>, c: char, k: int) -> bool {
    0 <= k < s.len() && s[k] == c && (forall|j: int| 0 <= j < k ==> s[j] != c)
}

/// A short bracketed marker of one character, with something after it.
pub open spec fn has_marker(s: Seq<char>) -> bool {
    exists|k: int|
        #![trigger first_at(s, ']', k)]
        {
            &&& first_at(s, ']', k)
            &&& s[0] == '['
            &&& utf8_len(s.take(k)) <= 8
            &&& trimmed(s.subrange(1, k)).len() == 1
            &&& trimmed(s.skip(k + 1)).len() > 0
        }
}

/// A title is one frame of a spinner: it begins with a Braille pattern or a bracketed marker.
pub open spec fn spinner_title(s: Seq<char>) -> bool {
    (s.len() > 0 && 0x2800 <= (s[0] as u32) <= 0x28ff) || has_marker(s)
}

/// A title says that work is going on.
pub open spec fn running_title(s: Seq<char>) -> bool {
    let lower = ascii_lowered(s);
    contains_part(lower, "working"@) || contains_part(lower, "thinking"@) || contains_part(
        lower,
        "running"@,
    ) || spinner_title(s)
}

/// The trimmed text of a title, if it is text.
pub open spec fn title_text(title: Seq<u8>) -> Option<Seq<char>> {
    if valid_utf8(title) {
        Some(trimmed(decode_utf8(title)))
    } else {
        None
    }
}

/// What a title of Codex says.
#[derive(Clone, Copy, Debug, PartialEq, Eq, Structural)]
pub enum TitleMeaning {
    NotText,
    Attention,
    Running,
    Plain,
}

/// What a title of Codex says.
pub open spec fn codex_meaning(title: Seq<u8>) -> TitleMeaning {
    match title_text(title) {
        None => TitleMeaning::NotText,
        Some(text) => if contains_part(ascii_lowered(text), "action required"@) {
            TitleMeaning::Attention
        } else if running_title(text) {
            TitleMeaning::Running
        } else {
            TitleMeaning::Plain
        },
    }
}

/// The agent that a title names, if it names one.
pub open spec fn title_hint(title: Seq<u8>) -> Option<SessionActivityAgent> {
    match title_text(title) {
        None => None,
        Some(text) => {
            let lower = ascii_lowered(text);
            if lower == "opencode"@ || starts_with(lower, "oc |"@) {
                Some(SessionActivityAgent::OpenCode)
            } else if lower == "zcode"@ || starts_with(lower, "zcode |"@) || starts_with(
                lower,
                "zcode -"@,
            ) {
                Some(SessionActivityAgent::ZCode)
            } else if contains_part(lower, "codex"@) || contains_part(lower, "action required"@)
                || spinner_title(text) {
                Some(SessionActivityAgent::Codex)
            } else {
                None
            }
        },
    }
}

fn marker_title(title: &[char]) -> (found: bool)
    ensures
        found == has_marker(title@),
{
    let mut k: usize = 0;
    let mut width: u64 = 0;
    assert(title@.take(0) =~= Seq::<char>::empty());
    while k < title.len() && title[k] != ']'
        invariant
            k <= title@.len(),
            width <= 4 * k,
            title@.len() == title.len(),
            k <= 9 ==> width == utf8_len(title@.take(k as int)),
            k > 9 ==> utf8_len(title@.take(k as int)) > 8,
            k > 9 ==> width == 9,
            forall|j: int| 0 <= j < k ==> title@[j] != ']',
        decreases title@.len() - k,
    {
        let c: char = title[k];
        assert(title@.take(k + 1).drop_last() =~= title@.take(k as int));
        assert(title@.take(k + 1).last() == c);
        let u: u32 = c as u32;
        let step: u64 = if u < 0x80 {
            1
        } else if u < 0x800 {
            2
        } else if u < 0x1_0000 {
            3
        } else {
            4
        };
        proof {
            lemma_utf8_len(title@.take(k as int));
        }
        if k < 9 {
            width = width + step;
        } else {
            width = 9;
        }
        k = k + 1;
    }
    if k == title.len() {
        assert forall|j: int| !first_at(title@, ']', j) by {}
        return false;
    }
    assert(first_at(title@, ']', k as int));
    assert forall|j: int| first_at(title@, ']', j) implies j == k by {
        if j < k {
            assert(title@[j] != ']');
        } else if k < j {
            assert(title@[k as int] != ']');
        }
    }
    if title[0] != '[' || width > 8 {
        return false;
    }
    let marker = trim_chars(slice_subrange(title, 1, k));
    let rest = trim_chars(slice_subrange(title, k + 1, title.len()));
    assert(title@.subrange(k + 1, title@.len() as int) =~= title@.skip(k + 1));
    marker.len() == 1 && rest.len() > 0
}

proof fn lemma_utf8_len(s: Seq<char>)
    ensures
        utf8_len(s) >= s.len(),
    decreases s.len(),
{
    if s.len() > 0 {
        lemma_utf8_len(s.drop_last());
    }
}

/// Whether a title is one frame of a spinner.
pub fn is_codex_spinner_title(title: &[char]) -> (spinner: bool)
    ensures
        spinner == spinner_title(title@),
{
    if title.len() > 0 {
        let u: u32 = title[0] as u32;
        if 0x2800 <= u && u <= 0x28ff {
            return true;
        }
    }
    marker_title(title)
}

/// Whether a title says that work is going on.
pub fn is_codex_running_title(title: &[char]) -> (running: bool)
    ensures
        running == running_title(title@),
{
    let lower = lower_chars(title);
    if chars_contain(lower.as_slice(), "working") || chars_contain(lower.as_slice(), "thinking")
        || chars_contain(lower.as_slice(), "running") {
        return true;
    }
    is_codex_spinner_title(title)
}

fn trimmed_title(title: &[u8]) -> (text: Option<Vec<char>>)
    ensures
        match text {
            Some(t) => title_text(title@) == Some(t@),
            None => title_text(title@) is None,
        },
{
    match utf8_text(title) {
        Some(text) => Some(trim_chars(str_chars(text.as_str()).as_slice())),
        None => None,
    }
}

/// Reads a title of Codex.
pub fn codex_title_meaning(title: &[u8]) -> (meaning: TitleMeaning)
    ensures
        meaning == codex_meaning(title@),
{
    match trimmed_title(title) {
        None => TitleMeaning::NotText,
        Some(text) => {
            let lower = lower_chars(text.as_slice());
            if chars_contain(lower.as_slice(), "action required") {
                TitleMeaning::Attention
            } else if is_codex_running_title(text.as_slice()) {
                TitleMeaning::Running
            } else {
                TitleMeaning::Plain
            }
        },
    }
}

/// The agent that a title names, if it names one.
pub fn title_identity_hint(title: &[u8]) -> (hint: Option<SessionActivityAgent>)
    ensures
        hint == title_hint(title@),
{
    let text: Vec<char> = match trimmed_title(title) {
        Some(text) => text,
        None => {
            return None;
        },
    };
    let lower = lower_chars(text.as_slice());
    let lower = lower.as_slice();
    if chars_equal(lower, "opencode") || chars_start_with(lower, "oc |") {
        return Some(SessionActivityAgent::OpenCode);
    }
    if chars_equal(lower, "zcode") || chars_start_with(lower, "zcode |") || chars_start_with(
        lower,
        "zcode -",
    ) {
        return Some(SessionActivityAgent::ZCode);
    }
    if chars_contain(lower, "codex") || chars_contain(lower, "action required")
        || is_codex_spinner_title(text.as_slice()) {
        return Some(SessionActivityAgent::Codex);
    }
    None
}

// ---------------------------------------------------------------------------
// Tab status

/// How far a list of `key=value` fields has been read. A backslash takes the next byte literally.
#[verifier::ext_equal]
pub struct StatusScan {
    pub key: Seq<u8>,
    pub value: Seq<u8>,
    pub reading_value: bool,
    pub escaped: bool,
    pub found: Option<Seq<u8>>,
}

impl StatusScan {
    /// Nothing has been read.
    pub open spec fn start() -> StatusScan {
        StatusScan {
            key: Seq::empty(),
            value: Seq::empty(),
            reading_value: false,
            escaped: false,
            found: None,
        }
    }

    /// One byte belongs to the key or to the value.
    pub open spec fn literal(self, byte: u8) -> StatusScan {
        if self.reading_value {
            StatusScan { value: self.value.push(byte), escaped: false, ..self }
        } else {
            StatusScan { key: self.key.push(byte), escaped: false, ..self }
        }
    }

    /// One more byte; once the status field has ended, nothing matters any more.
    pub open spec fn step(self, byte: u8) -> StatusScan {
        if self.found is Some {
            self
        } else if self.escaped {
            self.literal(byte)
        } else if byte == 0x5c {
            StatusScan { escaped: true, ..self }
        } else if byte == 0x3d && !self.reading_value {
            StatusScan { reading_value: true, ..self }
        } else if byte == 0x3b {
            if self.key == encode_utf8("status"@) && self.reading_value {
                StatusScan { found: Some(self.value), ..self }
            } else {
                StatusScan::start()
            }
        } else {
            self.literal(byte)
        }
    }

    /// Several bytes.
    pub open spec fn run(bytes: Seq<u8>) -> StatusScan
        decreases bytes.len(),
    {
        if bytes.len() == 0 {
            StatusScan::start()
        } else {
            StatusScan::run(bytes.drop_last()).step(bytes.last())
        }
    }
}

/// The value of the first `status` field of a list; the end of the list ends its last field.
pub open spec fn status_field(payload: Seq<u8>) -> Option<Seq<u8>> {
    StatusScan::run(payload.push(0x3b)).found
}

proof fn lemma_found_stays(bytes: Seq<u8>, n: int)
    requires
        0 <= n <= bytes.len(),
        StatusScan::run(bytes.take(n)).found is Some,
    ensures
        StatusScan::run(bytes).found == StatusScan::run(bytes.take(n)).found,
    decreases bytes.len() - n,
{
    if n < bytes.len() {
        assert(bytes.take(n + 1).drop_last() =~= bytes.take(n));
        lemma_found_stays(bytes, n + 1);
    } else {
        assert(bytes.take(n) =~= bytes);
    }
}

/// Reads the `status` field of a tab status report.
pub fn parse_claude_status(payload: &[u8]) -> (status: Option<Vec<u8>>)
    ensures
        match status {
            Some(s) => status_field(payload@) == Some(s@),
            None => status_field(payload@) is None,
        },
{
    let ghost all = payload@.push(0x3b);
    let mut key: Vec<u8> = Vec::new();
    let mut value: Vec<u8> = Vec::new();
    let mut reading_value: bool = false;
    let mut escaped: bool = false;
    let mut i: usize = 0;
    assert(all.take(0) =~= Seq::<u8>::empty());
    while i <= payload.len()
        invariant
            i <= payload@.len() + 1,
            payload.len() == payload@.len(),
            all == payload@.push(0x3b),
            StatusScan::run(all.take(i as int)) == (StatusScan {
                key: key@,
                value: value@,
                reading_value,
                escaped,
                found: None,
            }),
        decreases payload@.len() + 1 - i,
    {
        let byte: u8 = if i < payload.len() {
            payload[i]
        } else {
            0x3b
        };
        assert(all.take(i + 1).drop_last() =~= all.take(i as int));
        assert(all.take(i + 1).last() == byte);
        if escaped {
            if reading_value {
                value.push(byte);
            } else {
                key.push(byte);
            }
            escaped = false;
        } else if byte == 0x5c {
            escaped = true;
        } else if byte == 0x3d && !reading_value {
            reading_value = true;
        } else if byte == 0x3b {
            if bytes_spell(key.as_slice(), "status") && reading_value {
                proof {
                    lemma_found_stays(all, i + 1);
                }
                return Some(value);
            }
            key = Vec::new();
            value = Vec::new();
            reading_value = false;
            assert(StatusScan::run(all.take(i + 1)) =~= StatusScan::start());
        } else if reading_value {
            value.push(byte);
        } else {
            key.push(byte);
        }
        if i == payload.len() {
            assert(all.take(i + 1) =~= all);
            return None;
        }
        i = i + 1;
    }
    assert(all.take(i as int) =~= all);
    None
}

/// What a tab status says.
#[derive(Clone, Copy, Debug, PartialEq, Eq, Structural)]
pub enum StatusMeaning {
    Running,
    Attention,
    Idle,
    Nothing,
}

/// What a tab status report says.
pub open spec fn claude_meaning(payload: Seq<u8>) -> StatusMeaning {
    match status_field(payload) {
        None => StatusMeaning::Nothing,
        Some(status) => if !valid_utf8(status) {
            StatusMeaning::Nothing
        } else {
            let text = ascii_lowered(trimmed(decode_utf8(status)));
            if starts_with(text, "working"@) || text == "busy"@ || text == "running"@ {
                StatusMeaning::Running
            } else if starts_with(text, "waiting"@) || contains_part(text, "attention"@) {
                StatusMeaning::Attention
            } else if text.len() == 0 || text == "idle"@ {
                StatusMeaning::Idle
            } else {
                StatusMeaning::Nothing
            }
        },
    }
}

/// Reads a tab status report.
pub fn claude_status_meaning(payload: &[u8]) -> (meaning: StatusMeaning)
    ensures
        meaning == claude_meaning(payload@),
{
    let status: Vec<u8> = match parse_claude_status(payload) {
        Some(status) => status,
        None => {
            return StatusMeaning::Nothing;
        },
    };
    let text = match utf8_text(status.as_slice()) {
        Some(text) => text,
        None => {
            return StatusMeaning::Nothing;
        },
    };
    let lower = lower_chars(trim_chars(str_chars(text.as_str()).as_slice()).as_slice());
    let lower = lower.as_slice();
    if chars_start_with(lower, "working") || chars_equal(lower, "busy") || chars_equal(
        lower,
        "running",
    ) {
        return StatusMeaning::Running;
    }
    if chars_start_with(lower, "waiting") || chars_contain(lower, "attention") {
        return StatusMeaning::Attention;
    }
    if lower.len() == 0 || chars_equal(lower, "idle") {
        return StatusMeaning::Idle;
    }
    StatusMeaning::Nothing
}

// ---------------------------------------------------------------------------
// Progress

/// The state digit of a progress report, which begins with field `4`.
pub open spec fn progress_state(payload: Seq<u8>) -> Option<u8> {
    let fields = split_on(payload, 0x3b);
    if fields[0] == encode_utf8("4"@) && fields.len() > 1 && fields[1].len() == 1 && 0x30
        <= fields[1][0] <= 0x39 {
        Some((fields[1][0] - 0x30) as u8)
    } else {
        None
    }
}

/// Reads the state digit of a progress report.
pub fn parse_iterm_progress_state(payload: &[u8]) -> (state: Option<u8>)
    ensures
        state == progress_state(payload@),
{
    let fields = split_bytes(payload, 0x3b);
    assert(byte_views(fields@)[0] == fields@[0]@);
    if !bytes_spell(fields[0].as_slice(), "4") || fields.len() < 2 {
        return None;
    }
    assert(byte_views(fields@)[1] == fields@[1]@);
    if fields[1].len() == 1 && 0x30 <= fields[1][0] && fields[1][0] <= 0x39 {
        Some(fields[1][0] - 0x30)
    } else {
        None
    }
}

// ---------------------------------------------------------------------------
// Hints

/// The agent that an event names, if it names one.
pub open spec fn event_hint(event: OscEventModel) -> Option<SessionActivityAgent> {
    match event.kind {
        OscPayloadKind::ClaudeStatus => Some(SessionActivityAgent::ClaudeCode),
        OscPayloadKind::Title => title_hint(event.payload),
        OscPayloadKind::ItermProgress => None,
    }
}

/// Some event names another agent.
pub open spec fn some_hint_differs(events: Seq<OscEventModel>, agent: SessionActivityAgent) -> bool {
    exists|i: int|
        #![trigger events[i]]
        0 <= i < events.len() && event_hint(events[i]) is Some && event_hint(events[i])->0 != agent
}

/// The agent that an event names, if it names one.
pub fn osc_event_identity_hint(event: &OscEvent) -> (hint: Option<SessionActivityAgent>)
    ensures
        hint == event_hint(event@),
{
    match event {
        OscEvent::ClaudeStatus(_) => Some(SessionActivityAgent::ClaudeCode),
        OscEvent::Title(title) => title_identity_hint(title.as_slice()),
        OscEvent::ItermProgress(_) => None,
    }
}

/// Whether some event names another agent.
pub fn hints_differ(events: &Vec<OscEvent>, agent: SessionActivityAgent) -> (differ: bool)
    ensures
        differ == some_hint_differs(crate::pty::activity::osc::osc_models(events@), agent),
{
    let ghost models = crate::pty::activity::osc::osc_models(events@);
    let mut i: usize = 0;
    while i < events.len()
        invariant
            i <= events@.len(),
            models == crate::pty::activity::osc::osc_models(events@),
            forall|k: int|
                #![trigger models[k]]
                0 <= k < i ==> !(event_hint(models[k]) is Some && event_hint(models[k])->0 != agent),
        decreases events@.len() - i,
    {
        assert(models[i as int] == events@[i as int]@);
        if let Some(hint) = osc_event_identity_hint(&events[i]) {
            if hint != agent {
                return true;
            }
        }
        i = i + 1;
    }
    false
}

} // verus!
