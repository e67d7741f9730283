//! What coding agents do: which reports are read from the output, what they mean, who sent them, and what
//! is shown for it.

use crate::laws::text::{
    law_decimal_can_be_read_back, law_empty_pieces_are_dropped, law_operands_are_not_options,
    law_separator_parts_pieces, law_split_pieces_fit_together, law_unseparated_is_one_piece,
};
use crate::pty::activity::osc::{
    law_pieces_do_not_matter, BoundedOscParser, OscEvent, OscEventModel, OscModel, OscPayloadKind,
};
use crate::pty::activity::process::{
    agent_for_cmdline, agent_for_executable_name, agent_for_script_entrypoint, file_name,
    foreground_process_for_cmdline, has_component, has_scoped_package, is_last_name_end,
    last_non_empty, parse_linux_tpgid, path_file_name, path_has_component, path_has_scoped_package,
};
use crate::pty::activity::titles::{
    claude_meaning, claude_status_meaning, codex_meaning, codex_title_meaning, event_hint, first_at,
    has_marker, hints_differ, is_codex_running_title, is_codex_spinner_title,
    osc_event_identity_hint, parse_claude_status, parse_iterm_progress_state, progress_state,
    some_hint_differs, status_field, title_hint, title_identity_hint, utf8_len, utf8_width,
    StatusMeaning, StatusScan, TitleMeaning,
};
use crate::pty::activity::{
    DetectorModel, ForegroundProcess, SessionActivityAgent, SessionActivityDetector,
    SessionActivityKind, SessionActivityState, SessionAiActivityPayload, UnixTimestampMillis,
};
use crate::text::{
    ascii_lowered, ascii_tokens, contains_part, decimal, non_empty_pieces, occurs_at, split_on,
    starts_with, trimmed,
};
use vstd::prelude::*;
use vstd::utf8::{decode_utf8, encode_scalar, encode_utf8, valid_utf8};

verus! {

// ---------------------------------------------------------------------------
// Reading

/// A character in small letters.
pub open spec fn small(c: char) -> char {
    if 0x41 <= c as u32 <= 0x5a {
        ((c as u32 + 32) as u32) as char
    } else {
        c
    }
}

/// A text says a word at a place, in whatever letters.
pub open spec fn says_at(text: Seq<char>, word: Seq<char>, at: int) -> bool {
    &&& 0 <= at
    &&& at + word.len() <= text.len()
    &&& forall|i: int| 0 <= i < word.len() ==> small(#[trigger] text[at + i]) == word[i]
}

/// A text says a word somewhere, in whatever letters.
pub open spec fn says(text: Seq<char>, word: Seq<char>) -> bool {
    exists|at: int| says_at(text, word, at)
}

/// A text is a word, in whatever letters.
pub open spec fn is_word(text: Seq<char>, word: Seq<char>) -> bool {
    text.len() == word.len() && says_at(text, word, 0)
}

proof fn lemma_says_at(text: Seq<char>, word: Seq<char>, at: int)
    ensures
        says_at(text, word, at) == occurs_at(ascii_lowered(text), word, at),
{
    let lower = ascii_lowered(text);
    assert(forall|i: int| 0 <= i < text.len() ==> #[trigger] lower[i] == small(text[i]));
    if says_at(text, word, at) {
        assert forall|i: int| 0 <= i < word.len() implies lower.subrange(at, at + word.len())[i]
            == word[i] by {
            assert(small(text[at + i]) == word[i]);
            assert(lower[at + i] == small(text[at + i]));
        }
        assert(lower.subrange(at, at + word.len()) =~= word);
    }
    if occurs_at(lower, word, at) {
        assert forall|i: int| 0 <= i < word.len() implies small(#[trigger] text[at + i]) == word[i] by {
            assert(lower.subrange(at, at + word.len())[i] == lower[at + i]);
        }
    }
}

proof fn lemma_says(text: Seq<char>, word: Seq<char>)
    ensures
        says(text, word) == contains_part(ascii_lowered(text), word),
        says_at(text, word, 0) == starts_with(ascii_lowered(text), word),
        is_word(text, word) == (ascii_lowered(text) == word),
{
    let lower = ascii_lowered(text);
    if says(text, word) {
        let at = choose|at: int| says_at(text, word, at);
        lemma_says_at(text, word, at);
    }
    if contains_part(lower, word) {
        let at = choose|at: int| occurs_at(lower, word, at);
        lemma_says_at(text, word, at);
    }
    lemma_says_at(text, word, 0);
    if word.len() <= lower.len() {
        assert(lower.subrange(0, word.len() as int) =~= lower.take(word.len() as int));
    }
    if is_word(text, word) {
        assert(lower.take(word.len() as int) =~= lower);
    }
    if lower == word {
        assert(lower.take(word.len() as int) =~= word);
    }
}

// ---------------------------------------------------------------------------
// Titles

/// A title begins with a Braille pattern, as a spinner does.
pub open spec fn begins_with_braille(text: Seq<char>) -> bool {
    text.len() > 0 && 0x2800 <= text[0] as u32 && text[0] as u32 <= 0x28ff
}

/// A title begins with one character in square brackets, as a spinner may, and goes on behind them.
pub open spec fn begins_with_marker(text: Seq<char>) -> bool {
    exists|end: int|
        {
            &&& 0 < end < text.len()
            &&& text[0] == '['
            &&& #[trigger] text[end] == ']'
            &&& forall|i: int| 0 <= i < end ==> #[trigger] text[i] != ']'
            &&& utf8_len(text.take(end)) <= 8
            &&& trimmed(text.subrange(1, end)).len() == 1
            &&& trimmed(text.skip(end + 1)).len() > 0
        }
}

proof fn lemma_marker(text: Seq<char>)
    ensures
        begins_with_marker(text) == has_marker(text),
{
    if begins_with_marker(text) {
        let end = choose|end: int|
            {
                &&& 0 < end < text.len()
                &&& text[0] == '['
                &&& #[trigger] text[end] == ']'
                &&& forall|i: int| 0 <= i < end ==> #[trigger] text[i] != ']'
                &&& utf8_len(text.take(end)) <= 8
                &&& trimmed(text.subrange(1, end)).len() == 1
                &&& trimmed(text.skip(end + 1)).len() > 0
            };
        assert(first_at(text, ']', end));
    }
    if has_marker(text) {
        let k = choose|k: int|
            #![trigger first_at(text, ']', k)]
            {
                &&& first_at(text, ']', k)
                &&& text[0] == '['
                &&& utf8_len(text.take(k)) <= 8
                &&& trimmed(text.subrange(1, k)).len() == 1
                &&& trimmed(text.skip(k + 1)).len() > 0
            };
        assert(text[k] == ']');
    }
}

/// What a title of Codex means. It asks for attention if it says "action required". Otherwise it works if
/// it says "working", "thinking" or "running", or begins as a spinner does. Any other text means that
/// nothing is going on, and what is no text means nothing.
pub proof fn law_codex_title_means_what_it_says(title: &[u8], meaning: TitleMeaning)
    requires
        call_ensures(codex_title_meaning, (title,), meaning),
    ensures
        !valid_utf8(title@) <==> meaning is NotText,
        valid_utf8(title@) ==> {
            let text = trimmed(decode_utf8(title@));
            let asks = says(text, "action required"@);
            let works = says(text, "working"@) || says(text, "thinking"@) || says(text, "running"@)
                || begins_with_braille(text) || begins_with_marker(text);
            &&& meaning is Attention <==> asks
            &&& meaning is Running <==> !asks && works
            &&& meaning is Plain <==> !asks && !works
        },
{
    let text = trimmed(decode_utf8(title@));
    lemma_says(text, "action required"@);
    lemma_says(text, "working"@);
    lemma_says(text, "thinking"@);
    lemma_says(text, "running"@);
    lemma_marker(text);
}

/// Which agent a title gives away.
pub proof fn law_title_gives_its_agent_away(title: &[u8], hint: Option<SessionActivityAgent>)
    requires
        call_ensures(title_identity_hint, (title,), hint),
        valid_utf8(title@),
    ensures
        ({
            let text = trimmed(decode_utf8(title@));
            let open = is_word(text, "opencode"@) || says_at(text, "oc |"@, 0);
            let z = is_word(text, "zcode"@) || says_at(text, "zcode |"@, 0) || says_at(
                text,
                "zcode -"@,
                0,
            );
            let codex = says(text, "codex"@) || says(text, "action required"@) || begins_with_braille(
                text,
            ) || begins_with_marker(text);
            &&& open ==> hint == Some(SessionActivityAgent::OpenCode)
            &&& !open && z ==> hint == Some(SessionActivityAgent::ZCode)
            &&& hint == Some(SessionActivityAgent::Codex) ==> codex && !open && !z
            &&& !open && !z && codex && hint is Some && !(hint->0 is ClaudeCode) ==> hint == Some(
                SessionActivityAgent::Codex,
            )
            &&& codex ==> hint is Some
            &&& !open && !z && !codex ==> hint is None || hint->0 is ClaudeCode
        }),
{
    let text = trimmed(decode_utf8(title@));
    lemma_says(text, "opencode"@);
    lemma_says(text, "oc |"@);
    lemma_says(text, "zcode"@);
    lemma_says(text, "zcode |"@);
    lemma_says(text, "zcode -"@);
    lemma_says(text, "codex"@);
    lemma_says(text, "action required"@);
    lemma_marker(text);
}

// ---------------------------------------------------------------------------
// Tab status

/// Plain bytes of a list of fields.
pub open spec fn is_plain_field(bytes: Seq<u8>) -> bool {
    forall|i: int| 0 <= i < bytes.len() ==> #[trigger] bytes[i] != 0x3b && bytes[i] != 0x5c
}

proof fn lemma_key(key: Seq<u8>)
    requires
        is_plain_field(key),
        forall|i: int| 0 <= i < key.len() ==> #[trigger] key[i] != 0x3d,
    ensures
        StatusScan::run(key) == (StatusScan {
            key,
            value: Seq::empty(),
            reading_value: false,
            escaped: false,
            found: None,
        }),
    decreases key.len(),
{
    if key.len() > 0 {
        let rest = key.drop_last();
        assert(forall|i: int| 0 <= i < rest.len() ==> rest[i] == #[trigger] key[i]);
        assert(key[key.len() - 1] != 0x3d && key[key.len() - 1] != 0x3b);
        lemma_key(rest);
        assert(rest.push(key.last()) =~= key);
    } else {
        assert(key =~= Seq::<u8>::empty());
    }
}

proof fn lemma_value(key: Seq<u8>, value: Seq<u8>)
    requires
        is_plain_field(key),
        forall|i: int| 0 <= i < key.len() ==> #[trigger] key[i] != 0x3d,
        is_plain_field(value),
    ensures
        StatusScan::run(key.push(0x3d) + value) == (StatusScan {
            key,
            value,
            reading_value: true,
            escaped: false,
            found: None,
        }),
    decreases value.len(),
{
    let head = key.push(0x3d);
    if value.len() > 0 {
        let rest = value.drop_last();
        assert(forall|i: int| 0 <= i < rest.len() ==> rest[i] == #[trigger] value[i]);
        assert(value[value.len() - 1] != 0x3b && value[value.len() - 1] != 0x5c);
        lemma_value(key, rest);
        assert((head + value).drop_last() =~= head + rest);
        assert(rest.push(value.last()) =~= value);
    } else {
        lemma_key(key);
        assert(head + value =~= head);
        assert(head.drop_last() =~= key);
        assert(value =~= Seq::<u8>::empty());
    }
}

proof fn lemma_run_behind(first: Seq<u8>, second: Seq<u8>)
    requires
        StatusScan::run(first) == StatusScan::start(),
    ensures
        StatusScan::run(first + second) == StatusScan::run(second),
    decreases second.len(),
{
    if second.len() > 0 {
        lemma_run_behind(first, second.drop_last());
        assert((first + second).drop_last() =~= first + second.drop_last());
        assert((first + second).last() == second.last());
    } else {
        assert(first + second =~= first);
    }
}

/// The status of a report stands behind `status=`, up to the end or to a semicolon.
pub proof fn law_status_is_the_value_of_its_field(value: Seq<u8>, rest: Seq<u8>)
    requires
        is_plain_field(value),
    ensures
        status_field(encode_utf8("status"@).push(0x3d) + value) == Some(value),
        status_field((encode_utf8("status"@).push(0x3d) + value).push(0x3b) + rest) == Some(value),
{
    let key = encode_utf8("status"@);
    reveal_strlit("status");
    vstd::utf8::is_ascii_chars_encode_utf8("status"@);
    assert(is_plain_field(key)) by {
        assert forall|i: int| 0 <= i < key.len() implies #[trigger] key[i] != 0x3b && key[i] != 0x5c by {
            assert(key[i] == "status"@[i] as u8);
        }
    }
    assert forall|i: int| 0 <= i < key.len() implies #[trigger] key[i] != 0x3d by {
        assert(key[i] == "status"@[i] as u8);
    }
    lemma_value(key, value);
    let field = key.push(0x3d) + value;
    let ended = field.push(0x3b);
    assert(ended.drop_last() =~= field);
    assert(StatusScan::run(ended).found == Some(value));
    lemma_found_stays(ended, rest.push(0x3b));
    assert((ended + rest).push(0x3b) =~= ended + rest.push(0x3b));
}

proof fn lemma_found_stays(first: Seq<u8>, second: Seq<u8>)
    requires
        StatusScan::run(first).found is Some,
    ensures
        StatusScan::run(first + second) == StatusScan::run(first),
    decreases second.len(),
{
    if second.len() > 0 {
        lemma_found_stays(first, second.drop_last());
        assert((first + second).drop_last() =~= first + second.drop_last());
    } else {
        assert(first + second =~= first);
    }
}

/// Another field before it does not matter.
pub proof fn law_other_fields_are_passed_over(key: Seq<u8>, value: Seq<u8>, rest: Seq<u8>)
    requires
        is_plain_field(key),
        is_plain_field(value),
        forall|i: int| 0 <= i < key.len() ==> #[trigger] key[i] != 0x3d,
        key != encode_utf8("status"@),
    ensures
        status_field((key.push(0x3d) + value).push(0x3b) + rest) == status_field(rest),
        status_field(key.push(0x3b) + rest) == status_field(rest),
{
    lemma_value(key, value);
    let field = key.push(0x3d) + value;
    let ended = field.push(0x3b);
    assert(ended.drop_last() =~= field);
    lemma_run_behind(ended, rest.push(0x3b));
    assert((ended + rest).push(0x3b) =~= ended + rest.push(0x3b));
    lemma_key(key);
    let bare = key.push(0x3b);
    assert(bare.drop_last() =~= key);
    lemma_run_behind(bare, rest.push(0x3b));
    assert((bare + rest).push(0x3b) =~= bare + rest.push(0x3b));
}

/// A backslash takes the next byte literally, whatever it is.
pub proof fn law_backslash_takes_the_next_byte(before: Seq<u8>, byte: u8)
    requires
        StatusScan::run(before).found is None,
        !StatusScan::run(before).escaped,
    ensures
        ({
            let at = StatusScan::run(before);
            let after = StatusScan::run(before.push(0x5c).push(byte));
            &&& after.found is None && !after.escaped && after.reading_value == at.reading_value
            &&& at.reading_value ==> after.value == at.value.push(byte) && after.key == at.key
            &&& !at.reading_value ==> after.key == at.key.push(byte) && after.value == at.value
        }),
{
    let slash = before.push(0x5c);
    assert(slash.drop_last() =~= before);
    assert(slash.last() == 0x5c);
    assert(StatusScan::run(slash) == StatusScan::run(before).step(0x5c));
    assert(slash.push(byte).drop_last() =~= slash);
    assert(slash.push(byte).last() == byte);
    assert(StatusScan::run(slash.push(byte)) == StatusScan::run(slash).step(byte));
}

/// What a tab status means: at work if it begins with "working" or is "busy" or "running"; attention if it
/// begins with "waiting" or says "attention"; idle if it is empty or "idle"; and else nothing.
pub proof fn law_tab_status_means_what_it_says(payload: &[u8], meaning: StatusMeaning)
    requires
        call_ensures(claude_status_meaning, (payload,), meaning),
    ensures
        status_field(payload@) is None || !valid_utf8(status_field(payload@)->0) ==> meaning is Nothing,
        status_field(payload@) is Some && valid_utf8(status_field(payload@)->0) ==> {
            let text = trimmed(decode_utf8(status_field(payload@)->0));
            let works = says_at(text, "working"@, 0) || is_word(text, "busy"@) || is_word(
                text,
                "running"@,
            );
            let asks = says_at(text, "waiting"@, 0) || says(text, "attention"@);
            let rests = text.len() == 0 || is_word(text, "idle"@);
            &&& meaning is Running <==> works
            &&& meaning is Attention <==> !works && asks
            &&& meaning is Idle <==> !works && !asks && rests
        },
{
    if status_field(payload@) is Some {
        let text = trimmed(decode_utf8(status_field(payload@)->0));
        lemma_says(text, "working"@);
        lemma_says(text, "busy"@);
        lemma_says(text, "running"@);
        lemma_says(text, "waiting"@);
        lemma_says(text, "attention"@);
        lemma_says(text, "idle"@);
    }
}

// ---------------------------------------------------------------------------
// Progress

/// The state of a progress report is the digit behind `4;`, up to the end or to a further semicolon.
pub proof fn law_progress_state_is_its_digit(digit: u8, rest: Seq<u8>)
    requires
        0x30 <= digit <= 0x39,
    ensures
        progress_state(seq![0x34u8, 0x3b, digit]) == Some((digit - 0x30) as u8),
        progress_state(seq![0x34u8, 0x3b, digit].push(0x3b) + rest) == Some((digit - 0x30) as u8),
{
    reveal_strlit("4");
    vstd::utf8::is_ascii_chars_encode_utf8("4"@);
    let head = seq![0x34u8];
    let tail = seq![digit];
    assert(encode_utf8("4"@) =~= head);
    assert(!head.contains(0x3b));
    assert(!tail.contains(0x3b));
    law_unseparated_is_one_piece(head, 0x3b);
    law_unseparated_is_one_piece(tail, 0x3b);
    law_separator_parts_pieces(head, 0x3b, tail);
    let report = seq![0x34u8, 0x3b, digit];
    assert(head.push(0x3b) + tail =~= report);
    law_separator_parts_pieces(report, 0x3b, rest);
    assert(split_on(report, 0x3b) =~= seq![head, tail]);
    assert(split_on(report.push(0x3b) + rest, 0x3b)[0] == head);
    assert(split_on(report.push(0x3b) + rest, 0x3b)[1] == tail);
}

/// A report that does not begin with `4;` and one digit has no state.
pub proof fn law_other_reports_have_no_progress(payload: Seq<u8>)
    requires
        payload.len() < 3 || payload[0] != 0x34 || payload[1] != 0x3b || !(0x30 <= payload[2] <= 0x39)
            || (payload.len() > 3 && payload[3] != 0x3b),
    ensures
        progress_state(payload) is None,
{
    reveal_strlit("4");
    vstd::utf8::is_ascii_chars_encode_utf8("4"@);
    let pieces = split_on(payload, 0x3b);
    let head = seq![0x34u8];
    assert(encode_utf8("4"@) =~= head);
    law_split_pieces_fit_together(payload, 0x3b);
    if progress_state(payload) is Some {
        let two = pieces.take(2);
        assert(pieces[0] == head);
        let tail = pieces[1];
        lemma_glued_begins(pieces, 0x3b);
        assert(payload[0] == 0x34);
        assert(payload[1] == 0x3b);
        assert(payload[2] == tail[0]);
        assert(payload.len() > 3 ==> payload[3] == 0x3b);
        assert(two.len() == 2);
    }
}

proof fn lemma_glued_begins(pieces: Seq<Seq<u8>>, separator: u8)
    requires
        pieces.len() > 1,
        pieces[0].len() == 1,
        pieces[1].len() == 1,
    ensures
        ({
            let whole = crate::laws::text::glued(pieces, separator);
            &&& whole.len() >= 3
            &&& whole[0] == pieces[0][0]
            &&& whole[1] == separator
            &&& whole[2] == pieces[1][0]
            &&& pieces.len() == 2 ==> whole.len() == 3
            &&& pieces.len() > 2 ==> whole.len() > 3 && whole[3] == separator
        }),
    decreases pieces.len(),
{
    let rest = pieces.drop_last();
    if pieces.len() == 2 {
        assert(crate::laws::text::glued(rest, separator) == pieces[0]);
    } else {
        lemma_glued_begins(rest, separator);
    }
}

// ---------------------------------------------------------------------------
// Reports in the output

proof fn lemma_digits(before: Seq<u8>, digits: Seq<u8>)
    requires
        before.len() + digits.len() <= 5,
        forall|i: int| 0 <= i < digits.len() ==> 0x30 <= #[trigger] digits[i] <= 0x39,
    ensures
        OscModel::Command(before).run(digits) == (
            OscModel::Command(before + digits),
            Seq::<OscEventModel>::empty(),
        ),
    decreases digits.len(),
{
    if digits.len() > 0 {
        let rest = digits.drop_last();
        assert(forall|i: int| 0 <= i < rest.len() ==> rest[i] == #[trigger] digits[i]);
        assert(0x30 <= digits[digits.len() - 1] <= 0x39);
        lemma_digits(before, rest);
        assert((before + rest).push(digits.last()) =~= before + digits);
    } else {
        assert(before + digits =~= before);
    }
}

proof fn lemma_payload(kind: OscPayloadKind, payload: Seq<u8>)
    requires
        payload.len() <= 256,
        forall|i: int| 0 <= i < payload.len() ==> #[trigger] payload[i] != 0x07 && payload[i] != 0x1b,
    ensures
        OscModel::Payload(kind, Seq::empty()).run(payload) == (
            OscModel::Payload(kind, payload),
            Seq::<OscEventModel>::empty(),
        ),
    decreases payload.len(),
{
    if payload.len() > 0 {
        let rest = payload.drop_last();
        assert(forall|i: int| 0 <= i < rest.len() ==> rest[i] == #[trigger] payload[i]);
        assert(payload[payload.len() - 1] != 0x07 && payload[payload.len() - 1] != 0x1b);
        lemma_payload(kind, rest);
        assert(rest.push(payload.last()) =~= payload);
    } else {
        assert(payload =~= Seq::<u8>::empty());
    }
}

proof fn lemma_single(parser: OscModel, byte: u8)
    ensures
        parser.run(seq![byte]).0 == parser.step(byte).0,
        parser.run(seq![byte]).1 == (match parser.step(byte).1 {
            Some(event) => seq![event],
            None => Seq::empty(),
        }),
{
    assert(seq![byte].drop_last() =~= Seq::<u8>::empty());
    reveal_with_fuel(OscModel::run, 2);
    assert(parser.run(seq![byte]).1 =~= (match parser.step(byte).1 {
        Some(event) => seq![event],
        None => Seq::empty(),
    }));
}

/// A report with a number and a payload, ended by a bell.
pub open spec fn bell_report(number: Seq<u8>, payload: Seq<u8>) -> Seq<u8> {
    seq![0x1bu8, 0x5d] + number + seq![0x3bu8] + payload + seq![0x07u8]
}

/// A report with a number and a payload, ended by a string terminator.
pub open spec fn terminated_report(number: Seq<u8>, payload: Seq<u8>) -> Seq<u8> {
    seq![0x1bu8, 0x5d] + number + seq![0x3bu8] + payload + seq![0x1bu8, 0x5c]
}

proof fn lemma_opened(number: Seq<u8>, kind: OscPayloadKind, payload: Seq<u8>)
    requires
        0 < number.len() <= 5,
        forall|i: int| 0 <= i < number.len() ==> 0x30 <= #[trigger] number[i] <= 0x39,
        crate::pty::activity::osc::command_kind(number) == Some(kind),
        payload.len() <= 256,
        forall|i: int| 0 <= i < payload.len() ==> #[trigger] payload[i] != 0x07 && payload[i] != 0x1b,
    ensures
        OscModel::Ground.run(seq![0x1bu8, 0x5d] + number + seq![0x3bu8] + payload) == (
            OscModel::Payload(kind, payload),
            Seq::<OscEventModel>::empty(),
        ),
{
    let none = Seq::<OscEventModel>::empty();
    let start = seq![0x1bu8, 0x5d];
    assert(start =~= seq![0x1bu8] + seq![0x5du8]);
    lemma_single(OscModel::Ground, 0x1b);
    lemma_single(OscModel::Escape, 0x5d);
    law_pieces_do_not_matter(OscModel::Ground, seq![0x1bu8], seq![0x5du8]);
    assert(none + none =~= none);
    assert(OscModel::Ground.run(start) == (OscModel::Command(Seq::empty()), none));
    lemma_digits(Seq::empty(), number);
    assert(Seq::<u8>::empty() + number =~= number);
    law_pieces_do_not_matter(OscModel::Ground, start, number);
    lemma_single(OscModel::Command(number), 0x3b);
    law_pieces_do_not_matter(OscModel::Ground, start + number, seq![0x3bu8]);
    lemma_payload(kind, payload);
    law_pieces_do_not_matter(OscModel::Ground, start + number + seq![0x3bu8], payload);
}

/// The number of a command whose payload is of interest.
pub open spec fn number_kind(number: Seq<u8>, kind: OscPayloadKind) -> bool {
    match kind {
        OscPayloadKind::Title => number == seq![0x30u8] || number == seq![0x32u8],
        OscPayloadKind::ItermProgress => number == seq![0x39u8],
        OscPayloadKind::ClaudeStatus => number == seq![0x32u8, 0x31, 0x33, 0x33, 0x37],
    }
}

proof fn lemma_number(number: Seq<u8>, kind: OscPayloadKind)
    requires
        number_kind(number, kind),
    ensures
        0 < number.len() <= 5,
        forall|i: int| 0 <= i < number.len() ==> 0x30 <= #[trigger] number[i] <= 0x39,
        crate::pty::activity::osc::command_kind(number) == Some(kind),
{
    reveal_strlit("0");
    reveal_strlit("2");
    reveal_strlit("9");
    reveal_strlit("21337");
    vstd::utf8::is_ascii_chars_encode_utf8("0"@);
    vstd::utf8::is_ascii_chars_encode_utf8("2"@);
    vstd::utf8::is_ascii_chars_encode_utf8("9"@);
    vstd::utf8::is_ascii_chars_encode_utf8("21337"@);
    assert(encode_utf8("0"@) =~= seq![0x30u8]);
    assert(encode_utf8("2"@) =~= seq![0x32u8]);
    assert(encode_utf8("9"@) =~= seq![0x39u8]);
    assert(encode_utf8("21337"@) =~= seq![0x32u8, 0x31, 0x33, 0x33, 0x37]);
}

/// A report of up to 256 bytes in the output is found, with its kind and its payload as they are, however
/// it is ended: a title is number 0 or 2, a progress report number 9, a tab status number 21337.
pub proof fn law_reports_in_the_output_are_found(
    number: Seq<u8>,
    kind: OscPayloadKind,
    payload: Seq<u8>,
)
    requires
        number_kind(number, kind),
        payload.len() <= 256,
        forall|i: int| 0 <= i < payload.len() ==> #[trigger] payload[i] != 0x07 && payload[i] != 0x1b,
    ensures
        OscModel::Ground.run(bell_report(number, payload)) == (
            OscModel::Ground,
            seq![OscEventModel { kind, payload }],
        ),
        OscModel::Ground.run(terminated_report(number, payload)) == (
            OscModel::Ground,
            seq![OscEventModel { kind, payload }],
        ),
{
    let none = Seq::<OscEventModel>::empty();
    let one = seq![OscEventModel { kind, payload }];
    lemma_number(number, kind);
    lemma_opened(number, kind, payload);
    let open = seq![0x1bu8, 0x5d] + number + seq![0x3bu8] + payload;
    lemma_single(OscModel::Payload(kind, payload), 0x07);
    law_pieces_do_not_matter(OscModel::Ground, open, seq![0x07u8]);
    assert(none + one =~= one);
    assert(none + none =~= none);
    lemma_single(OscModel::Payload(kind, payload), 0x1b);
    lemma_single(OscModel::PayloadEscape(kind, payload), 0x5c);
    assert(seq![0x1bu8, 0x5c] =~= seq![0x1bu8] + seq![0x5cu8]);
    law_pieces_do_not_matter(OscModel::Payload(kind, payload), seq![0x1bu8], seq![0x5cu8]);
    law_pieces_do_not_matter(OscModel::Ground, open, seq![0x1bu8, 0x5c]);
}

/// Output without an escape byte holds no report.
pub proof fn law_plain_output_holds_no_report(bytes: Seq<u8>)
    requires
        !bytes.contains(0x1b),
    ensures
        OscModel::Ground.run(bytes) == (OscModel::Ground, Seq::<OscEventModel>::empty()),
    decreases bytes.len(),
{
    if bytes.len() > 0 {
        let rest = bytes.drop_last();
        assert(bytes.contains(bytes.last()));
        assert(!rest.contains(0x1b)) by {
            if rest.contains(0x1b) {
                let i = choose|i: int| 0 <= i < rest.len() && rest[i] == 0x1b;
                assert(bytes[i] == 0x1b);
            }
        }
        law_plain_output_holds_no_report(rest);
    }
}

// ---------------------------------------------------------------------------
// What is shown

/// The foreground is known to be an agent, by an earlier look or by the one that this output causes.
pub open spec fn agent_is_in_front(
    detector: DetectorModel,
    seen: ForegroundProcess,
    agent: SessionActivityAgent,
) -> bool {
    &&& seen == ForegroundProcess::Agent(agent)
    &&& detector.probed_at_ms is None || detector.foreground == ForegroundProcess::Agent(agent)
}

/// Nothing is shown yet, or something of that agent.
pub open spec fn nothing_of_others(detector: DetectorModel, agent: SessionActivityAgent) -> bool {
    detector.activity matches Some(activity) ==> activity.agent == agent
}

/// A report says that an agent is at work.
pub open spec fn reports_work(agent: SessionActivityAgent, event: OscEventModel) -> bool {
    match event.kind {
        OscPayloadKind::Title => agent is Codex && codex_meaning(event.payload) is Running,
        OscPayloadKind::ClaudeStatus => agent is ClaudeCode && claude_meaning(event.payload) is Running,
        OscPayloadKind::ItermProgress => !(agent is Codex) && (progress_state(event.payload) == Some(
            1u8,
        ) || progress_state(event.payload) == Some(3u8)),
    }
}

/// A report says that an agent needs attention.
pub open spec fn reports_attention(agent: SessionActivityAgent, event: OscEventModel) -> bool {
    match event.kind {
        OscPayloadKind::Title => agent is Codex && codex_meaning(event.payload) is Attention,
        OscPayloadKind::ClaudeStatus => agent is ClaudeCode && claude_meaning(
            event.payload,
        ) is Attention,
        OscPayloadKind::ItermProgress => !(agent is Codex) && (progress_state(event.payload) == Some(
            2u8,
        ) || progress_state(event.payload) == Some(4u8)),
    }
}

/// A report says that an agent has nothing to do.
pub open spec fn reports_rest(agent: SessionActivityAgent, event: OscEventModel) -> bool {
    match event.kind {
        OscPayloadKind::Title => agent is Codex && codex_meaning(event.payload) is Plain,
        OscPayloadKind::ClaudeStatus => agent is ClaudeCode && claude_meaning(event.payload) is Idle,
        OscPayloadKind::ItermProgress => !(agent is Codex) && progress_state(event.payload) == Some(
            0u8,
        ),
    }
}

/// What is shown is the activity report.
pub proof fn law_shown_is_what_is_reported(
    detector: DetectorModel,
    agent: SessionActivityAgent,
    state: SessionActivityState,
)
    ensures
        detector.shows(agent, state) <==> detector.activity is Some && detector.activity->0.agent
            == agent && detector.activity->0.state == state,
{
}

/// An agent in front whose last report is of work is shown as running, and one whose last report asks for
/// attention is shown as asking, whatever came before.
pub proof fn law_report_of_work_is_shown(
    detector: DetectorModel,
    bytes: Seq<u8>,
    now_ms: u64,
    seen: ForegroundProcess,
    agent: SessionActivityAgent,
)
    requires
        agent_is_in_front(detector, seen, agent),
        detector.parser.run(bytes).1.len() > 0,
    ensures
        ({
            let report = detector.parser.run(bytes).1.last();
            let after = detector.observe(bytes, now_ms, seen).0;
            &&& reports_work(agent, report) ==> after.shows(agent, SessionActivityState::Running)
            &&& reports_attention(agent, report) ==> after.shows(
                agent,
                SessionActivityState::Attention,
            )
        }),
{
}

/// A title of Codex that begins with a Braille pattern, as its spinner does, and does not ask for action
/// shows Codex at work.
pub proof fn law_spinner_shows_codex_at_work(
    detector: DetectorModel,
    title: Seq<u8>,
    now_ms: u64,
    seen: ForegroundProcess,
)
    requires
        agent_is_in_front(detector, seen, SessionActivityAgent::Codex),
        detector.parser is Ground,
        title.len() <= 256,
        forall|i: int| 0 <= i < title.len() ==> #[trigger] title[i] != 0x07 && title[i] != 0x1b,
        valid_utf8(title),
        begins_with_braille(trimmed(decode_utf8(title))),
        !says(trimmed(decode_utf8(title)), "action required"@),
    ensures
        codex_meaning(title) == TitleMeaning::Running,
        detector.observe(bell_report(seq![0x32u8], title), now_ms, seen).0.shows(
            SessionActivityAgent::Codex,
            SessionActivityState::Running,
        ),
{
    lemma_says(trimmed(decode_utf8(title)), "action required"@);
    law_reports_in_the_output_are_found(seq![0x32u8], OscPayloadKind::Title, title);
    law_report_of_work_is_shown(
        detector,
        bell_report(seq![0x32u8], title),
        now_ms,
        seen,
        SessionActivityAgent::Codex,
    );
}

/// A report that means nothing to the agent in front changes nothing that is shown.
pub proof fn law_other_reports_show_nothing(
    detector: DetectorModel,
    bytes: Seq<u8>,
    now_ms: u64,
    seen: ForegroundProcess,
    agent: SessionActivityAgent,
    event: OscEventModel,
)
    requires
        agent_is_in_front(detector, seen, agent),
        detector.activity is Some,
        detector.activity->0.agent == agent,
        detector.parser.run(bytes).1 == seq![event],
        !reports_work(agent, event),
        !reports_attention(agent, event),
        !reports_rest(agent, event),
    ensures
        detector.observe(bytes, now_ms, seen).0.activity == detector.activity,
        !detector.observe(bytes, now_ms, seen).1,
{
    lemma_one_event(detector, bytes, now_ms, seen, agent, event);
}

/// An agent that reports rest after work or a question has completed it. What was completed stays so, and
/// otherwise the agent is idle.
pub proof fn law_rest_after_work_is_completion(
    detector: DetectorModel,
    bytes: Seq<u8>,
    now_ms: u64,
    seen: ForegroundProcess,
    agent: SessionActivityAgent,
    event: OscEventModel,
)
    requires
        agent_is_in_front(detector, seen, agent),
        nothing_of_others(detector, agent),
        detector.parser.run(bytes).1 == seq![event],
        reports_rest(agent, event),
    ensures
        detector.activity matches Some(activity) && (activity.state is Running
            || activity.state is Attention) ==> detector.observe(bytes, now_ms, seen).0.shows(
            agent,
            SessionActivityState::Completed,
        ),
        detector.activity matches Some(activity) && (activity.state is Completed
            || activity.state is Idle) ==> detector.observe(bytes, now_ms, seen).0.activity
            == detector.activity,
        detector.activity is None ==> detector.observe(bytes, now_ms, seen).0.shows(
            agent,
            SessionActivityState::Idle,
        ),
{
    lemma_one_event(detector, bytes, now_ms, seen, agent, event);
}

/// A title of an agent other than Codex says only that the agent is there.
pub proof fn law_other_titles_show_the_agent(
    detector: DetectorModel,
    bytes: Seq<u8>,
    now_ms: u64,
    seen: ForegroundProcess,
    agent: SessionActivityAgent,
    event: OscEventModel,
)
    requires
        agent_is_in_front(detector, seen, agent),
        nothing_of_others(detector, agent),
        detector.parser.run(bytes).1 == seq![event],
        event.kind is Title,
        !(agent is Codex),
    ensures
        detector.activity is Some ==> detector.observe(bytes, now_ms, seen).0.activity
            == detector.activity,
        detector.activity is None ==> detector.observe(bytes, now_ms, seen).0.shows(
            agent,
            SessionActivityState::Idle,
        ),
{
    lemma_one_event(detector, bytes, now_ms, seen, agent, event);
}

proof fn lemma_one_event(
    detector: DetectorModel,
    bytes: Seq<u8>,
    now_ms: u64,
    seen: ForegroundProcess,
    agent: SessionActivityAgent,
    event: OscEventModel,
)
    requires
        agent_is_in_front(detector, seen, agent),
        detector.parser.run(bytes).1 == seq![event],
    ensures
        ({
            let (parser, events) = detector.parser.run(bytes);
            let read = DetectorModel { parser, ..detector };
            let looked = if read.probes(events, bytes.len() == 0, now_ms) {
                read.probed(events, seen, now_ms)
            } else {
                read
            };
            let (settled, changed) = looked.see_foreground(now_ms);
            let (after, again) = settled.see_event(agent, event, now_ms);
            &&& looked.foreground == ForegroundProcess::Agent(agent)
            &&& looked.activity == detector.activity
            &&& detector.observe(bytes, now_ms, seen) == (after, changed || again)
        }),
{
    let events = seq![event];
    assert(events.drop_last() =~= Seq::<OscEventModel>::empty());
    assert(events.last() == event);
    reveal_with_fuel(DetectorModel::see_events, 2);
}

/// When somebody else comes to the front, work that was going on is completed and an agent that was idle
/// is shown no longer; what was completed stays.
pub proof fn law_agent_that_left_is_completed(
    detector: DetectorModel,
    bytes: Seq<u8>,
    now_ms: u64,
    activity: SessionAiActivityPayload,
)
    requires
        detector.activity == Some(activity),
        !(activity.state is Completed),
        detector.probed_at_ms is None || now_ms - detector.probed_at_ms->0 >= 100,
    ensures
        ({
            let after = detector.observe(bytes, now_ms, ForegroundProcess::Other).0;
            &&& activity.state is Running || activity.state is Attention ==> after.shows(
                activity.agent,
                SessionActivityState::Completed,
            )
            &&& activity.state is Idle ==> after.activity is None
        }),
{
}

/// A look that shows nothing leaves what is shown as it is.
pub proof fn law_unknown_foreground_changes_nothing(
    detector: DetectorModel,
    bytes: Seq<u8>,
    now_ms: u64,
)
    requires
        detector.probed_at_ms is None || detector.foreground is Unknown,
    ensures
        detector.observe(bytes, now_ms, ForegroundProcess::Unknown).0.activity == detector.activity,
{
}

/// An agent that comes to the front after another is shown as idle; Codex is shown only once it has said
/// something, and what the other one did is shown no longer.
pub proof fn law_next_agent_replaces_the_last(
    detector: DetectorModel,
    bytes: Seq<u8>,
    now_ms: u64,
    agent: SessionActivityAgent,
)
    requires
        bytes.len() > 0,
        detector.parser.run(bytes).1.len() == 0,
        detector.probed_at_ms is None || now_ms - detector.probed_at_ms->0 >= 100,
        detector.activity matches Some(activity) ==> activity.agent != agent,
    ensures
        ({
            let after = detector.observe(bytes, now_ms, ForegroundProcess::Agent(agent)).0;
            &&& agent is Codex ==> after.activity is None
            &&& !(agent is Codex) ==> after.shows(agent, SessionActivityState::Idle)
        }),
{
    reveal_with_fuel(DetectorModel::see_events, 1);
}

/// Whatever is shown anew is shown from that moment on, and a change is told exactly if there is one.
pub proof fn law_changes_are_dated(
    detector: DetectorModel,
    agent: SessionActivityAgent,
    state: SessionActivityState,
    now_ms: u64,
)
    ensures
        ({
            let (after, changed) = detector.transition(agent, state, now_ms);
            let same = detector.activity matches Some(activity) && activity.agent == agent
                && activity.state == state;
            &&& changed <==> !same
            &&& same ==> after == detector
            &&& !same ==> after.activity == Some(
                SessionAiActivityPayload {
                    kind: SessionActivityKind::Ai,
                    agent,
                    state,
                    changed_at_ms: UnixTimestampMillis(now_ms),
                },
            )
        }),
{
}

/// The foreground is looked at on the first output, and again 100 milliseconds after the last look while
/// work is going on.
pub proof fn law_foreground_is_looked_at_in_time(detector: DetectorModel, bytes: Seq<u8>, now_ms: u64)
    requires
        bytes.len() > 0,
        detector.activity is None || !(detector.activity->0.state is Completed)
            || detector.parser.run(bytes).1.len() > 0,
        detector.probed_at_ms is None || now_ms - detector.probed_at_ms->0 >= 100,
    ensures
        detector.will_probe(bytes, now_ms),
{
}

/// A look at the foreground is remembered, and when it was.
pub proof fn law_look_is_remembered(
    detector: DetectorModel,
    bytes: Seq<u8>,
    now_ms: u64,
    seen: ForegroundProcess,
)
    ensures
        detector.will_probe(bytes, now_ms) ==> detector.observe(bytes, now_ms, seen).0.probed_at_ms
            == Some(now_ms) && detector.observe(bytes, now_ms, seen).0.foreground == seen,
        !detector.will_probe(bytes, now_ms) ==> detector.observe(bytes, now_ms, seen).0.probed_at_ms
            == detector.probed_at_ms && detector.observe(bytes, now_ms, seen).0.foreground
            == detector.foreground,
        detector.observe(bytes, now_ms, seen).0.parser == detector.parser.run(bytes).0,
{
    let (parser, events) = detector.parser.run(bytes);
    let read = DetectorModel { parser, ..detector };
    let empty = bytes.len() == 0;
    let looked = if read.probes(events, empty, now_ms) {
        read.probed(events, seen, now_ms)
    } else {
        read
    };
    let settled = looked.see_foreground(now_ms).0;
    if let ForegroundProcess::Agent(agent) = looked.foreground {
        lemma_events_change_the_activity_alone(settled, agent, events, now_ms);
    }
}

proof fn lemma_events_change_the_activity_alone(
    detector: DetectorModel,
    agent: SessionActivityAgent,
    events: Seq<OscEventModel>,
    now_ms: u64,
)
    ensures
        ({
            let after = detector.see_events(agent, events, now_ms).0;
            &&& after.parser == detector.parser
            &&& after.foreground == detector.foreground
            &&& after.probed_at_ms == detector.probed_at_ms
            &&& after.probe_state == detector.probe_state
        }),
    decreases events.len(),
{
    if events.len() > 0 {
        lemma_events_change_the_activity_alone(detector, agent, events.drop_last(), now_ms);
    }
}

/// After a look at plain output that showed no agent, the next report causes another at once. After a look
/// at a report that showed none, the next one has to wait for the interval.
pub proof fn law_next_report_gets_one_look(
    detector: DetectorModel,
    bytes: Seq<u8>,
    now_ms: u64,
    seen: ForegroundProcess,
    next: Seq<u8>,
    later_ms: u64,
)
    requires
        detector.will_probe(bytes, now_ms),
        !(seen is Agent),
        next.len() > 0,
        now_ms <= later_ms,
    ensures
        ({
            let after = detector.observe(bytes, now_ms, seen).0;
            &&& detector.parser.run(bytes).1.len() == 0 && after.parser.run(next).1.len() > 0
                ==> after.will_probe(next, later_ms)
            &&& detector.parser.run(bytes).1.len() > 0 && !after.completed_probe_pending && later_ms
                - now_ms < 100 ==> !after.will_probe(next, later_ms)
        }),
{
    law_look_is_remembered(detector, bytes, now_ms, seen);
}

/// Completed work grants one look at whatever output comes next.
pub proof fn law_completion_grants_a_look(
    detector: DetectorModel,
    agent: SessionActivityAgent,
    now_ms: u64,
    next: Seq<u8>,
    later_ms: u64,
)
    requires
        !detector.shows(agent, SessionActivityState::Completed),
        next.len() > 0,
    ensures
        detector.transition(agent, SessionActivityState::Completed, now_ms).0.will_probe(
            next,
            later_ms,
        ),
{
}

// ---------------------------------------------------------------------------
// Who is in front

/// A program is an agent by its name.
pub proof fn law_agents_have_names(name: &[u8], agent: Option<SessionActivityAgent>)
    requires
        call_ensures(agent_for_executable_name, (name,), agent),
    ensures
        agent == Some(SessionActivityAgent::Codex) <==> name@ == encode_utf8("codex"@),
        agent == Some(SessionActivityAgent::OpenCode) <==> name@ == encode_utf8("opencode"@),
        agent == Some(SessionActivityAgent::ZCode) <==> name@ == encode_utf8("zcode"@) || name@
            == encode_utf8("zcode-cli"@),
{
    reveal_strlit("codex");
    reveal_strlit("opencode");
    reveal_strlit("zcode");
    reveal_strlit("zcode-cli");
    vstd::utf8::is_ascii_chars_encode_utf8("codex"@);
    vstd::utf8::is_ascii_chars_encode_utf8("opencode"@);
    vstd::utf8::is_ascii_chars_encode_utf8("zcode"@);
    vstd::utf8::is_ascii_chars_encode_utf8("zcode-cli"@);
    assert(encode_utf8("codex"@)[0] == 'c' as u8);
    assert(encode_utf8("opencode"@)[0] == 'o' as u8);
    assert(encode_utf8("zcode"@)[0] == 'z' as u8);
    assert(encode_utf8("zcode-cli"@)[0] == 'z' as u8);
}

/// The last part of a path that is not empty.
pub open spec fn is_file_name(path: Seq<u8>, name: Seq<u8>) -> bool {
    let parts = split_on(path, 0x2f);
    name.len() > 0 && exists|k: int|
        {
            &&& 0 <= k < parts.len()
            &&& #[trigger] parts[k] == name
            &&& forall|i: int| k < i < parts.len() ==> #[trigger] parts[i].len() == 0
        }
}

proof fn lemma_last(parts: Seq<Seq<u8>>, k: int)
    requires
        0 <= k < parts.len(),
        parts[k].len() > 0,
        forall|i: int| k < i < parts.len() ==> #[trigger] parts[i].len() == 0,
    ensures
        last_non_empty(parts) == Some(parts[k]),
    decreases parts.len(),
{
    if k < parts.len() - 1 {
        assert(parts[parts.len() - 1].len() == 0);
        lemma_last(parts.drop_last(), k);
    }
}

proof fn lemma_file_name(path: Seq<u8>, name: Seq<u8>)
    requires
        is_file_name(path, name),
    ensures
        file_name(path) == Some(name),
{
    let parts = split_on(path, 0x2f);
    let k = choose|k: int|
        {
            &&& 0 <= k < parts.len()
            &&& #[trigger] parts[k] == name
            &&& forall|i: int| k < i < parts.len() ==> #[trigger] parts[i].len() == 0
        };
    lemma_last(parts, k);
}

/// A part of a path.
pub open spec fn is_part(path: Seq<u8>, part: Seq<u8>) -> bool {
    exists|i: int| 0 <= i < split_on(path, 0x2f).len() && #[trigger] split_on(path, 0x2f)[i] == part
}

/// Two parts of a path, one behind the other.
pub open spec fn are_parts(path: Seq<u8>, first: Seq<u8>, second: Seq<u8>) -> bool {
    exists|i: int|
        0 <= i && i + 1 < split_on(path, 0x2f).len() && #[trigger] split_on(path, 0x2f)[i] == first
            && split_on(path, 0x2f)[i + 1] == second
}

/// A script is an agent's by its name alone, or by its name and the package that it lies in.
pub proof fn law_scripts_belong_to_their_package(
    script: &[u8],
    agent: Option<SessionActivityAgent>,
    name: Seq<u8>,
)
    requires
        call_ensures(agent_for_script_entrypoint, (script,), agent),
        is_file_name(script@, name),
    ensures
        name == encode_utf8("codex"@) || (name == encode_utf8("codex.js"@) && are_parts(
            script@,
            encode_utf8("@openai"@),
            encode_utf8("codex"@),
        )) ==> agent == Some(SessionActivityAgent::Codex),
        agent == Some(SessionActivityAgent::Codex) ==> name == encode_utf8("codex"@) || (name
            == encode_utf8("codex.js"@) && are_parts(
            script@,
            encode_utf8("@openai"@),
            encode_utf8("codex"@),
        )),
        name == encode_utf8("opencode"@) ==> agent == Some(SessionActivityAgent::OpenCode),
        name == encode_utf8("zcode"@) || name == encode_utf8("zcode-cli"@) ==> agent == Some(
            SessionActivityAgent::ZCode,
        ),
        (name == encode_utf8("cli.js"@) || name == encode_utf8("index.js"@) || name == encode_utf8(
            "opencode.js"@,
        )) && (is_part(script@, encode_utf8("opencode-ai"@)) || is_part(
            script@,
            encode_utf8("opencode"@),
        )) ==> agent == Some(SessionActivityAgent::OpenCode) || agent == Some(
            SessionActivityAgent::ClaudeCode,
        ),
        (name == encode_utf8("cli.js"@) || name == encode_utf8("index.js"@) || name == encode_utf8(
            "zcode.js"@,
        ) || name == encode_utf8("zcode-cli.js"@)) && (is_part(script@, encode_utf8("zcode"@))
            || is_part(script@, encode_utf8("zcode-cli"@))) ==> agent is Some,
        agent == Some(SessionActivityAgent::OpenCode) ==> name == encode_utf8("opencode"@) || ((name
            == encode_utf8("cli.js"@) || name == encode_utf8("index.js"@) || name == encode_utf8(
            "opencode.js"@,
        )) && (is_part(script@, encode_utf8("opencode-ai"@)) || is_part(
            script@,
            encode_utf8("opencode"@),
        ))),
        agent == Some(SessionActivityAgent::ZCode) <==> name == encode_utf8("zcode"@) || name
            == encode_utf8("zcode-cli"@) || (agent is Some && !(agent->0 is OpenCode)
            && !(agent->0 is ClaudeCode) && !(agent->0 is Codex) && (name == encode_utf8("cli.js"@)
            || name == encode_utf8("index.js"@) || name == encode_utf8("zcode.js"@) || name
            == encode_utf8("zcode-cli.js"@)) && (is_part(script@, encode_utf8("zcode"@)) || is_part(
            script@,
            encode_utf8("zcode-cli"@),
        ))),
{
    lemma_file_name(script@, name);
    lemma_names_differ();
    assert(are_parts(script@, encode_utf8("@openai"@), encode_utf8("codex"@)) == has_scoped_package(
        script@,
        "@openai"@,
        "codex"@,
    ));
    lemma_part(script@, "opencode"@);
    lemma_part(script@, "opencode-ai"@);
    lemma_part(script@, "zcode"@);
    lemma_part(script@, "zcode-cli"@);
}

proof fn lemma_part(path: Seq<u8>, part: Seq<char>)
    ensures
        is_part(path, encode_utf8(part)) == has_component(path, part),
{
    let parts = split_on(path, 0x2f);
    if has_component(path, part) {
        let i = choose|i: int| 0 <= i < parts.len() && parts[i] == encode_utf8(part);
        assert(parts[i] == encode_utf8(part));
    }
    if is_part(path, encode_utf8(part)) {
        let i = choose|i: int|
            0 <= i < split_on(path, 0x2f).len() && #[trigger] split_on(path, 0x2f)[i] == encode_utf8(
                part,
            );
        assert(parts.contains(parts[i]));
    }
}

proof fn lemma_names_differ()
    ensures
        encode_utf8("codex"@).len() == 5,
        encode_utf8("codex"@)[0] == 0x63,
        encode_utf8("codex.js"@).len() == 8,
        encode_utf8("codex.js"@)[0] == 0x63,
        encode_utf8("opencode"@).len() == 8,
        encode_utf8("opencode"@)[0] == 0x6f,
        encode_utf8("opencode.js"@).len() == 11,
        encode_utf8("zcode"@).len() == 5,
        encode_utf8("zcode"@)[0] == 0x7a,
        encode_utf8("zcode-cli"@).len() == 9,
        encode_utf8("zcode-cli.js"@).len() == 12,
        encode_utf8("zcode.js"@).len() == 8,
        encode_utf8("zcode.js"@)[0] == 0x7a,
        encode_utf8("cli.js"@).len() == 6,
        encode_utf8("index.js"@).len() == 8,
        encode_utf8("index.js"@)[0] == 0x69,
        encode_utf8("node"@).len() == 4,
        encode_utf8("nodejs"@).len() == 6,
        encode_utf8("nodejs"@)[0] == 0x6e,
        encode_utf8("bun"@).len() == 3,
        encode_utf8("bunx"@).len() == 4,
        encode_utf8("bunx"@)[0] == 0x62,
        encode_utf8("node"@)[0] == 0x6e,
{
    reveal_strlit("codex");
    reveal_strlit("codex.js");
    reveal_strlit("opencode");
    reveal_strlit("opencode.js");
    reveal_strlit("zcode");
    reveal_strlit("zcode-cli");
    reveal_strlit("zcode-cli.js");
    reveal_strlit("zcode.js");
    reveal_strlit("cli.js");
    reveal_strlit("index.js");
    reveal_strlit("node");
    reveal_strlit("nodejs");
    reveal_strlit("bun");
    reveal_strlit("bunx");
    vstd::utf8::is_ascii_chars_encode_utf8("codex"@);
    vstd::utf8::is_ascii_chars_encode_utf8("codex.js"@);
    vstd::utf8::is_ascii_chars_encode_utf8("opencode"@);
    vstd::utf8::is_ascii_chars_encode_utf8("opencode.js"@);
    vstd::utf8::is_ascii_chars_encode_utf8("zcode"@);
    vstd::utf8::is_ascii_chars_encode_utf8("zcode-cli"@);
    vstd::utf8::is_ascii_chars_encode_utf8("zcode-cli.js"@);
    vstd::utf8::is_ascii_chars_encode_utf8("zcode.js"@);
    vstd::utf8::is_ascii_chars_encode_utf8("cli.js"@);
    vstd::utf8::is_ascii_chars_encode_utf8("index.js"@);
    vstd::utf8::is_ascii_chars_encode_utf8("node"@);
    vstd::utf8::is_ascii_chars_encode_utf8("nodejs"@);
    vstd::utf8::is_ascii_chars_encode_utf8("bun"@);
    vstd::utf8::is_ascii_chars_encode_utf8("bunx"@);
    assert("codex"@[0] == 'c');
    assert("codex.js"@[0] == 'c');
    assert("opencode"@[0] == 'o');
    assert("zcode"@[0] == 'z');
    assert("zcode.js"@[0] == 'z');
    assert("index.js"@[0] == 'i');
    assert("node"@[0] == 'n');
    assert("nodejs"@[0] == 'n');
    assert("bunx"@[0] == 'b');
}

/// A command line is the agent's whose program it runs. A JavaScript runtime is the agent's whose script it
/// runs: the first argument that is no option or, behind a subcommand of Bun that runs a script, the second.
pub proof fn law_command_is_of_the_agent_that_it_runs(
    cmdline: &[u8],
    agent: Option<SessionActivityAgent>,
    program: &[u8],
    direct: Option<SessionActivityAgent>,
    script: &[u8],
    scripted: Option<SessionActivityAgent>,
)
    requires
        call_ensures(agent_for_cmdline, (cmdline,), agent),
        call_ensures(agent_for_executable_name, (program,), direct),
        call_ensures(agent_for_script_entrypoint, (script,), scripted),
    ensures
        ({
            let words = split_on(cmdline@, 0).filter(|word: Seq<u8>| word.len() > 0);
            let rest = words.skip(1).filter(|word: Seq<u8>| !(word.len() > 0 && word[0] == 0x2d));
            let bun = program@ == encode_utf8("bun"@) || program@ == encode_utf8("bunx"@);
            let runtime = program@ == encode_utf8("node"@) || program@ == encode_utf8("nodejs"@) || bun;
            let runs = rest.len() > 0 && (rest[0] == encode_utf8("run"@) || rest[0] == encode_utf8(
                "x"@,
            ) || rest[0] == encode_utf8("exec"@));
            &&& words.len() == 0 ==> agent is None
            &&& words.len() > 0 && is_file_name(words[0], program@) ==> {
                &&& direct is Some ==> agent == direct
                &&& direct is None && !runtime ==> agent is None
                &&& direct is None && runtime && rest.len() == 0 ==> agent is None
                &&& direct is None && runtime && bun && runs && rest.len() == 1 ==> agent is None
                &&& direct is None && runtime && bun && runs && rest.len() > 1 && script@ == rest[1]
                    ==> agent == scripted
                &&& direct is None && runtime && !(bun && runs) && rest.len() > 0 && script@ == rest[0]
                    ==> agent == scripted
            }
        }),
{
    let words = split_on(cmdline@, 0).filter(|word: Seq<u8>| word.len() > 0);
    law_empty_pieces_are_dropped(split_on(cmdline@, 0));
    assert(non_empty_pieces(split_on(cmdline@, 0)) == words);
    if words.len() > 0 && is_file_name(words[0], program@) {
        lemma_file_name(words[0], program@);
        assert(words.drop_first() =~= words.skip(1));
        law_operands_are_not_options(words.skip(1));
    }
}

/// A foreground process is an agent if its command line is of one, and another process if its command line
/// has something in it. Of one that cannot be read nothing is known.
pub proof fn law_foreground_is_told_by_its_command(
    cmdline: &[u8],
    agent: Option<SessionActivityAgent>,
    foreground: ForegroundProcess,
)
    requires
        call_ensures(agent_for_cmdline, (cmdline,), agent),
        call_ensures(foreground_process_for_cmdline, (cmdline,), foreground),
    ensures
        agent is Some ==> foreground == ForegroundProcess::Agent(agent->0),
        agent is None && (exists|i: int| 0 <= i < cmdline@.len() && #[trigger] cmdline@[i] != 0)
            ==> foreground is Other,
        agent is None && (forall|i: int| 0 <= i < cmdline@.len() ==> #[trigger] cmdline@[i] == 0)
            ==> foreground is Unknown,
{
}

/// The foreground process group is the sixth field behind the name of the command, which may hold brackets
/// and blanks itself.
pub proof fn law_foreground_group_is_the_sixth_field(
    stat: &str,
    group: Option<u32>,
    name: Seq<char>,
    rest: Seq<char>,
)
    requires
        call_ensures(parse_linux_tpgid, (stat,), group),
        stat@ == name.push(')').push(' ') + rest,
        forall|i: int| 0 <= i < rest.len() - 1 ==> !(#[trigger] rest[i] == ')' && rest[i + 1] == ' '),
    ensures
        ascii_tokens(rest).len() <= 5 ==> group is None,
        ascii_tokens(rest).len() > 5 ==> {
            let field = ascii_tokens(rest)[5];
            let digits = if field.len() > 0 && field[0] == '+' {
                field.skip(1)
            } else {
                field
            };
            &&& digits.len() == 0 || (exists|i: int|
                0 <= i < digits.len() && !('0' <= #[trigger] digits[i] <= '9')) ==> group is None
            &&& forall|n: nat|
                #![trigger decimal(n)]
                digits == decimal(n) ==> group == (if 0 < n && n <= 2147483647 {
                    Some(n as u32)
                } else {
                    None::<u32>
                })
        },
{
    let mark = seq![')', ' '];
    let at = name.len() as int;
    assert(stat@.subrange(at, at + 2) =~= mark);
    assert forall|j: int| at < j implies !occurs_at(stat@, mark, j) by {
        if occurs_at(stat@, mark, j) {
            assert(stat@.subrange(j, j + 2)[0] == mark[0]);
            assert(stat@.subrange(j, j + 2)[1] == mark[1]);
            if j > at + 1 {
                assert(rest[j - at - 2] == ')');
                assert(rest[j - at - 2 + 1] == ' ');
            }
        }
    }
    assert(is_last_name_end(stat@, at));
    let chosen = choose|i: int| is_last_name_end(stat@, i);
    assert(chosen == at) by {
        if chosen < at {
            assert(!occurs_at(stat@, mark, at));
        } else if at < chosen {
            assert(!occurs_at(stat@, mark, chosen));
        }
    }
    assert(stat@.skip(at + 2) =~= rest);
    if ascii_tokens(rest).len() > 5 {
        let field = ascii_tokens(rest)[5];
        let digits = if field.len() > 0 && field[0] == '+' {
            field.skip(1)
        } else {
            field
        };
        assert(field.len() > 0 ==> field.drop_first() =~= field.skip(1));
        if exists|i: int| 0 <= i < digits.len() && !('0' <= #[trigger] digits[i] <= '9') {
            let i = choose|i: int| 0 <= i < digits.len() && !('0' <= #[trigger] digits[i] <= '9');
            lemma_no_number(digits, i);
        }
        assert forall|n: nat| #![trigger decimal(n)] digits == decimal(n) implies group == (if 0 < n && n
            <= 2147483647 {
            Some(n as u32)
        } else {
            None::<u32>
        }) by {
            lemma_number_value(n);
        }
    }
}

proof fn lemma_no_number(digits: Seq<char>, i: int)
    requires
        0 <= i < digits.len(),
        !('0' <= digits[i] <= '9'),
    ensures
        crate::pty::activity::process::digits_value(digits) is None,
    decreases digits.len(),
{
    if i < digits.len() - 1 {
        assert(digits.drop_last()[i] == digits[i]);
        lemma_no_number(digits.drop_last(), i);
    }
}

proof fn lemma_number_value(n: nat)
    ensures
        crate::pty::activity::process::digits_value(decimal(n)) == Some(n),
    decreases n,
{
    let text = decimal(n);
    if n >= 10 {
        lemma_number_value(n / 10);
        law_decimal_can_be_read_back(n / 10);
        assert(text.drop_last() =~= decimal(n / 10));
    }
}

/// A title looks like a spinner, or says that work is going on.
pub proof fn law_spinner_and_work_are_told(title: &[char], spinner: bool, running: bool)
    requires
        call_ensures(is_codex_spinner_title, (title,), spinner),
        call_ensures(is_codex_running_title, (title,), running),
    ensures
        spinner <==> begins_with_braille(title@) || begins_with_marker(title@),
        running <==> spinner || says(title@, "working"@) || says(title@, "thinking"@) || says(
            title@,
            "running"@,
        ),
{
    lemma_marker(title@);
    lemma_says(title@, "working"@);
    lemma_says(title@, "thinking"@);
    lemma_says(title@, "running"@);
}

/// How long a marker is, is measured in bytes.
pub proof fn law_markers_are_measured_in_bytes(text: Seq<char>)
    ensures
        utf8_len(text) == encode_utf8(text).len(),
    decreases text.len(),
{
    if text.len() > 0 {
        let rest = text.drop_last();
        let last = seq![text.last()];
        law_markers_are_measured_in_bytes(rest);
        assert(text =~= rest + last);
        crate::text::lemma_utf8_len_concat(rest, last);
        assert(last.drop_first() =~= Seq::<char>::empty());
        assert(encode_utf8(last.drop_first()).len() == 0);
        assert(encode_utf8(last) == encode_scalar(last[0] as u32) + encode_utf8(last.drop_first()));
        vstd::utf8::char_is_scalar(last[0]);
        assert(last[0] == text.last());
        assert(encode_scalar(last[0] as u32).len() == utf8_width(text.last()));
        assert(utf8_len(text) == utf8_len(rest) + utf8_width(text.last()));
    }
}

/// A report gives an agent away by its title or by its kind; a progress report is anybody's.
pub proof fn law_report_gives_its_agent_away(event: &OscEvent, hint: Option<SessionActivityAgent>)
    requires
        call_ensures(osc_event_identity_hint, (event,), hint),
    ensures
        event@.kind is Title ==> hint == title_hint(event@.payload),
        event@.kind is ItermProgress ==> hint is None,
        event@.kind is ClaudeStatus ==> hint == Some(SessionActivityAgent::ClaudeCode),
{
}

/// Reports disagree with an agent if one of them gives another away.
pub proof fn law_hints_differ_by_one(
    events: Seq<OscEventModel>,
    agent: SessionActivityAgent,
    i: int,
)
    requires
        0 <= i < events.len(),
        event_hint(events[i]) is Some,
        event_hint(events[i])->0 != agent,
    ensures
        some_hint_differs(events, agent),
{
}

/// Reports that give nobody else away do not disagree.
pub proof fn law_agreeing_hints_do_not_differ(events: Seq<OscEventModel>, agent: SessionActivityAgent)
    requires
        forall|i: int|
            0 <= i < events.len() ==> event_hint(#[trigger] events[i]) is None || event_hint(events[i])
                == Some(agent),
    ensures
        !some_hint_differs(events, agent),
{
}

/// A known agent in front is looked at again when a report gives another one away.
pub proof fn law_other_agents_report_causes_a_look(
    detector: DetectorModel,
    bytes: Seq<u8>,
    now_ms: u64,
    agent: SessionActivityAgent,
    i: int,
)
    requires
        detector.foreground == ForegroundProcess::Agent(agent),
        detector.probe_state is Ready,
        0 <= i < detector.parser.run(bytes).1.len(),
        event_hint(detector.parser.run(bytes).1[i]) is Some,
        event_hint(detector.parser.run(bytes).1[i])->0 != agent,
    ensures
        detector.will_probe(bytes, now_ms),
{
}

/// The parts of a path are found as they stand in it.
pub proof fn law_parts_of_a_path_are_found(
    path: &[u8],
    name: Option<Vec<u8>>,
    part: &str,
    has: bool,
    scope: &str,
    package: &str,
    scoped: bool,
    last: Seq<u8>,
)
    requires
        call_ensures(path_file_name, (path,), name),
        call_ensures(path_has_component, (path, part), has),
        call_ensures(path_has_scoped_package, (path, scope, package), scoped),
    ensures
        is_file_name(path@, last) ==> name is Some && name->0@ == last,
        has <==> is_part(path@, encode_utf8(part@)),
        scoped <==> are_parts(path@, encode_utf8(scope@), encode_utf8(package@)),
{
    if is_file_name(path@, last) {
        lemma_file_name(path@, last);
    }
    lemma_part(path@, part@);
    assert(are_parts(path@, encode_utf8(scope@), encode_utf8(package@)) == has_scoped_package(
        path@,
        scope@,
        package@,
    ));
}

/// What a status report and a progress report say is what their readers find, and a list of reports differs
/// from an agent exactly if one of them gives another away.
pub proof fn law_readers_find_what_is_said(
    payload: &[u8],
    status: Option<Vec<u8>>,
    state: Option<u8>,
    events: &Vec<OscEvent>,
    agent: SessionActivityAgent,
    differ: bool,
    i: int,
)
    requires
        call_ensures(parse_claude_status, (payload,), status),
        call_ensures(parse_iterm_progress_state, (payload,), state),
        call_ensures(hints_differ, (events, agent), differ),
    ensures
        status is Some <==> status_field(payload@) is Some,
        status is Some ==> status->0@ == status_field(payload@)->0,
        state == progress_state(payload@),
        0 <= i < events@.len() && event_hint(events@[i]@) is Some && event_hint(events@[i]@)->0 != agent
            ==> differ,
        differ ==> events@.len() > 0,
{
    let models = crate::pty::activity::osc::osc_models(events@);
    if 0 <= i < events@.len() {
        assert(models[i] == events@[i]@);
    }
    assert(models.len() == events@.len());
}

/// A detector that does not look at the process in front goes on as it would whatever stood there, and one
/// that looks goes by what it was told.
pub proof fn law_detector_goes_by_what_it_was_told<F: FnOnce() -> ForegroundProcess>(
    detector: &mut SessionActivityDetector,
    bytes: &[u8],
    now_ms: u64,
    foreground: F,
    changed: bool,
    told: ForegroundProcess,
)
    requires
        call_ensures(
            SessionActivityDetector::observe_output::<F>,
            (detector, bytes, now_ms, foreground),
            changed,
        ),
        forall|seen: ForegroundProcess| foreground.ensures((), seen) ==> seen == told,
    ensures
        final(detector)@ == old(detector)@.observe(bytes@, now_ms, told).0,
        changed == old(detector)@.observe(bytes@, now_ms, told).1,
{
    if old(detector)@.will_probe(bytes@, now_ms) {
        let seen = choose|seen: ForegroundProcess|
            foreground.ensures((), seen) && (final(detector)@, changed) == #[trigger] old(
                detector,
            )@.observe(bytes@, now_ms, seen);
        assert(seen == told);
    } else {
        assert((final(detector)@, changed) == old(detector)@.observe(bytes@, now_ms, told));
    }
}

proof fn lemma_unchanged_events(
    detector: DetectorModel,
    agent: SessionActivityAgent,
    events: Seq<OscEventModel>,
    now_ms: u64,
)
    ensures
        !detector.see_events(agent, events, now_ms).1 ==> detector.see_events(
            agent,
            events,
            now_ms,
        ).0.activity == detector.activity,
    decreases events.len(),
{
    if events.len() > 0 {
        lemma_unchanged_events(detector, agent, events.drop_last(), now_ms);
    }
}

/// If no change is told, what is shown is what was shown.
pub proof fn law_untold_is_unchanged(
    detector: DetectorModel,
    bytes: Seq<u8>,
    now_ms: u64,
    seen: ForegroundProcess,
)
    requires
        !detector.observe(bytes, now_ms, seen).1,
    ensures
        detector.observe(bytes, now_ms, seen).0.activity == detector.activity,
{
    let (parser, events) = detector.parser.run(bytes);
    let read = DetectorModel { parser, ..detector };
    let empty = bytes.len() == 0;
    let looked = if read.probes(events, empty, now_ms) {
        read.probed(events, seen, now_ms)
    } else {
        read
    };
    let settled = looked.see_foreground(now_ms).0;
    if let ForegroundProcess::Agent(agent) = looked.foreground {
        lemma_unchanged_events(settled, agent, events, now_ms);
    }
}

/// Output without a report causes no look within 100 milliseconds of the last one, unless completed work has
/// granted one.
pub proof fn law_foreground_is_not_looked_at_too_often(detector: DetectorModel, bytes: Seq<u8>, now_ms: u64)
    requires
        detector.parser.run(bytes).1.len() == 0,
        detector.probed_at_ms is Some,
        now_ms - detector.probed_at_ms->0 < 100,
        !detector.completed_probe_pending,
    ensures
        !detector.will_probe(bytes, now_ms),
{
}

/// Completed work stays as it is shown while nothing is reported and no look is due.
pub proof fn law_completed_work_is_left_alone(
    detector: DetectorModel,
    bytes: Seq<u8>,
    now_ms: u64,
    seen: ForegroundProcess,
)
    requires
        detector.activity is Some,
        detector.activity->0.state is Completed,
        detector.parser.run(bytes).1.len() == 0,
        bytes.len() == 0 || (!detector.completed_probe_pending && detector.probed_at_ms is Some && now_ms
            - detector.probed_at_ms->0 < 100),
    ensures
        detector.observe(bytes, now_ms, seen).0.activity == detector.activity,
        detector.observe(bytes, now_ms, seen).0.foreground == detector.foreground,
        detector.observe(bytes, now_ms, seen).0.probed_at_ms == detector.probed_at_ms,
        !detector.observe(bytes, now_ms, seen).1,
{
}

/// Of several reports at once each counts after the one before it: work or a question, and then rest, is
/// completed work.
pub proof fn law_reports_count_one_after_the_other(
    detector: DetectorModel,
    bytes: Seq<u8>,
    now_ms: u64,
    seen: ForegroundProcess,
    agent: SessionActivityAgent,
)
    requires
        agent_is_in_front(detector, seen, agent),
        detector.parser.run(bytes).1.len() >= 2,
        reports_rest(agent, detector.parser.run(bytes).1.last()),
        reports_work(agent, detector.parser.run(bytes).1.drop_last().last()) || reports_attention(
            agent,
            detector.parser.run(bytes).1.drop_last().last(),
        ),
    ensures
        detector.observe(bytes, now_ms, seen).0.shows(agent, SessionActivityState::Completed),
        detector.observe(bytes, now_ms, seen).1,
{
    let (parser, events) = detector.parser.run(bytes);
    let read = DetectorModel { parser, ..detector };
    let looked = if read.probes(events, bytes.len() == 0, now_ms) {
        read.probed(events, seen, now_ms)
    } else {
        read
    };
    let settled = looked.see_foreground(now_ms).0;
    assert(looked.foreground == ForegroundProcess::Agent(agent));
    let before = settled.see_events(agent, events.drop_last(), now_ms).0;
    assert(events.drop_last().len() > 0);
    assert(before == settled.see_events(agent, events.drop_last().drop_last(), now_ms).0.see_event(
        agent,
        events.drop_last().last(),
        now_ms,
    ).0);
    assert(before.shows(agent, SessionActivityState::Running) || before.shows(
        agent,
        SessionActivityState::Attention,
    ));
    assert(settled.see_events(agent, events, now_ms).0 == before.see_event(
        agent,
        events.last(),
        now_ms,
    ).0);
}

/// Bytes that neither end a report nor begin an escape.
pub open spec fn is_inner(bytes: Seq<u8>) -> bool {
    forall|i: int| 0 <= i < bytes.len() ==> #[trigger] bytes[i] != 0x07 && bytes[i] != 0x1b
}

proof fn lemma_discarded(bytes: Seq<u8>)
    requires
        is_inner(bytes),
    ensures
        OscModel::Discard.run(bytes) == (OscModel::Discard, Seq::<OscEventModel>::empty()),
    decreases bytes.len(),
{
    if bytes.len() > 0 {
        let rest = bytes.drop_last();
        assert(forall|i: int| 0 <= i < rest.len() ==> rest[i] == #[trigger] bytes[i]);
        assert(bytes[bytes.len() - 1] == bytes.last());
        lemma_discarded(rest);
    }
}

proof fn lemma_command_or_discard(bytes: Seq<u8>)
    requires
        is_inner(bytes),
        !bytes.contains(0x3b),
    ensures
        ({
            let (state, events) = OscModel::Command(Seq::empty()).run(bytes);
            &&& state == OscModel::Command(bytes) || state == OscModel::Discard
            &&& events == Seq::<OscEventModel>::empty()
        }),
    decreases bytes.len(),
{
    if bytes.len() > 0 {
        let rest = bytes.drop_last();
        assert(forall|i: int| 0 <= i < rest.len() ==> rest[i] == #[trigger] bytes[i]);
        assert(bytes[bytes.len() - 1] == bytes.last());
        assert(bytes.contains(bytes.last()));
        assert(!rest.contains(0x3b)) by {
            if rest.contains(0x3b) {
                let i = choose|i: int| 0 <= i < rest.len() && rest[i] == 0x3b;
                assert(bytes[i] == 0x3b);
            }
        }
        lemma_command_or_discard(rest);
        assert(rest.push(bytes.last()) =~= bytes);
    } else {
        assert(bytes =~= Seq::<u8>::empty());
    }
}

proof fn lemma_report_begins()
    ensures
        OscModel::Ground.run(seq![0x1bu8, 0x5d]) == (
            OscModel::Command(Seq::empty()),
            Seq::<OscEventModel>::empty(),
        ),
{
    let none = Seq::<OscEventModel>::empty();
    assert(seq![0x1bu8, 0x5d] =~= seq![0x1bu8] + seq![0x5du8]);
    lemma_single(OscModel::Ground, 0x1b);
    lemma_single(OscModel::Escape, 0x5d);
    law_pieces_do_not_matter(OscModel::Ground, seq![0x1bu8], seq![0x5du8]);
    assert(none + none =~= none);
}

proof fn lemma_discarded_to_its_end(open: Seq<u8>)
    requires
        OscModel::Ground.run(open) == (OscModel::Discard, Seq::<OscEventModel>::empty()),
    ensures
        OscModel::Ground.run(open + seq![0x07u8]) == (OscModel::Ground, Seq::<OscEventModel>::empty()),
        OscModel::Ground.run(open + seq![0x1bu8, 0x5c]) == (
            OscModel::Ground,
            Seq::<OscEventModel>::empty(),
        ),
{
    let none = Seq::<OscEventModel>::empty();
    assert(none + none =~= none);
    lemma_single(OscModel::Discard, 0x07);
    law_pieces_do_not_matter(OscModel::Ground, open, seq![0x07u8]);
    lemma_single(OscModel::Discard, 0x1b);
    lemma_single(OscModel::DiscardEscape, 0x5c);
    assert(seq![0x1bu8, 0x5c] =~= seq![0x1bu8] + seq![0x5cu8]);
    law_pieces_do_not_matter(OscModel::Discard, seq![0x1bu8], seq![0x5cu8]);
    law_pieces_do_not_matter(OscModel::Ground, open, seq![0x1bu8, 0x5c]);
}

/// A report of more than 256 bytes is dropped as a whole, and what follows it is read as ever.
pub proof fn law_long_reports_are_dropped(number: Seq<u8>, kind: OscPayloadKind, payload: Seq<u8>)
    requires
        number_kind(number, kind),
        payload.len() > 256,
        is_inner(payload),
    ensures
        OscModel::Ground.run(bell_report(number, payload)) == (
            OscModel::Ground,
            Seq::<OscEventModel>::empty(),
        ),
        OscModel::Ground.run(terminated_report(number, payload)) == (
            OscModel::Ground,
            Seq::<OscEventModel>::empty(),
        ),
{
    let none = Seq::<OscEventModel>::empty();
    let first = payload.take(256);
    let byte = payload[256];
    let rest = payload.skip(257);
    assert(forall|i: int| 0 <= i < first.len() ==> first[i] == #[trigger] payload[i]);
    assert(is_inner(first)) by {
        assert forall|i: int| 0 <= i < first.len() implies #[trigger] first[i] != 0x07 && first[i]
            != 0x1b by {
            assert(payload[i] == first[i]);
        }
    }
    assert(is_inner(rest)) by {
        assert forall|i: int| 0 <= i < rest.len() implies #[trigger] rest[i] != 0x07 && rest[i] != 0x1b by {
            assert(payload[i + 257] == rest[i]);
        }
    }
    assert(payload[256] != 0x07 && payload[256] != 0x1b);
    assert(none + none =~= none);
    lemma_number(number, kind);
    lemma_opened(number, kind, first);
    let head = seq![0x1bu8, 0x5d] + number + seq![0x3bu8];
    lemma_single(OscModel::Payload(kind, first), byte);
    law_pieces_do_not_matter(OscModel::Ground, head + first, seq![byte]);
    lemma_discarded(rest);
    law_pieces_do_not_matter(OscModel::Ground, head + first + seq![byte], rest);
    assert(head + first + seq![byte] + rest =~= head + payload);
    lemma_discarded_to_its_end(head + payload);
}

/// A report under any other number is dropped, whatever it says, and what follows it is read as ever.
pub proof fn law_other_numbers_are_dropped(number: Seq<u8>, payload: Seq<u8>)
    requires
        is_inner(number),
        !number.contains(0x3b),
        !number_kind(number, OscPayloadKind::Title),
        !number_kind(number, OscPayloadKind::ItermProgress),
        !number_kind(number, OscPayloadKind::ClaudeStatus),
        is_inner(payload),
    ensures
        OscModel::Ground.run(bell_report(number, payload)) == (
            OscModel::Ground,
            Seq::<OscEventModel>::empty(),
        ),
        OscModel::Ground.run(terminated_report(number, payload)) == (
            OscModel::Ground,
            Seq::<OscEventModel>::empty(),
        ),
{
    let none = Seq::<OscEventModel>::empty();
    assert(none + none =~= none);
    let start = seq![0x1bu8, 0x5d];
    lemma_report_begins();
    lemma_command_or_discard(number);
    law_pieces_do_not_matter(OscModel::Ground, start, number);
    lemma_spelled();
    assert(crate::pty::activity::osc::command_kind(number) is None);
    let state = OscModel::Command(Seq::empty()).run(number).0;
    lemma_single(state, 0x3b);
    law_pieces_do_not_matter(OscModel::Ground, start + number, seq![0x3bu8]);
    lemma_discarded(payload);
    law_pieces_do_not_matter(OscModel::Ground, start + number + seq![0x3bu8], payload);
    lemma_discarded_to_its_end(start + number + seq![0x3bu8] + payload);
}

proof fn lemma_spelled()
    ensures
        encode_utf8("0"@) == seq![0x30u8],
        encode_utf8("2"@) == seq![0x32u8],
        encode_utf8("9"@) == seq![0x39u8],
        encode_utf8("21337"@) == seq![0x32u8, 0x31, 0x33, 0x33, 0x37],
{
    reveal_strlit("0");
    reveal_strlit("2");
    reveal_strlit("9");
    reveal_strlit("21337");
    vstd::utf8::is_ascii_chars_encode_utf8("0"@);
    vstd::utf8::is_ascii_chars_encode_utf8("2"@);
    vstd::utf8::is_ascii_chars_encode_utf8("9"@);
    vstd::utf8::is_ascii_chars_encode_utf8("21337"@);
    assert(encode_utf8("0"@) =~= seq![0x30u8]);
    assert(encode_utf8("2"@) =~= seq![0x32u8]);
    assert(encode_utf8("9"@) =~= seq![0x39u8]);
    assert(encode_utf8("21337"@) =~= seq![0x32u8, 0x31, 0x33, 0x33, 0x37]);
}

/// A report that is broken off by an escape that does not end it is dropped up to its end.
pub proof fn law_broken_reports_are_dropped(
    number: Seq<u8>,
    kind: OscPayloadKind,
    payload: Seq<u8>,
    byte: u8,
    rest: Seq<u8>,
)
    requires
        number_kind(number, kind),
        payload.len() <= 256,
        is_inner(payload),
        byte != 0x5c,
        byte != 0x07,
        byte != 0x1b,
        is_inner(rest),
    ensures
        OscModel::Ground.run(bell_report(number, payload + seq![0x1bu8, byte] + rest)) == (
            OscModel::Ground,
            Seq::<OscEventModel>::empty(),
        ),
{
    let none = Seq::<OscEventModel>::empty();
    assert(none + none =~= none);
    lemma_number(number, kind);
    lemma_opened(number, kind, payload);
    let head = seq![0x1bu8, 0x5d] + number + seq![0x3bu8];
    lemma_single(OscModel::Payload(kind, payload), 0x1b);
    lemma_single(OscModel::PayloadEscape(kind, payload), byte);
    law_pieces_do_not_matter(OscModel::Ground, head + payload, seq![0x1bu8]);
    law_pieces_do_not_matter(OscModel::Ground, head + payload + seq![0x1bu8], seq![byte]);
    lemma_discarded(rest);
    law_pieces_do_not_matter(
        OscModel::Ground,
        head + payload + seq![0x1bu8] + seq![byte],
        rest,
    );
    let whole = payload + seq![0x1bu8, byte] + rest;
    assert(head + payload + seq![0x1bu8] + seq![byte] + rest =~= head + whole);
    lemma_discarded_to_its_end(head + whole);
}

/// A reader that stands outside a report finds the one that comes next, and stands outside again.
pub proof fn law_reader_finds_the_next_report(
    parser: &mut BoundedOscParser,
    bytes: &[u8],
    events: Vec<OscEvent>,
    number: Seq<u8>,
    kind: OscPayloadKind,
    payload: Seq<u8>,
)
    requires
        old(parser)@ is Ground,
        call_ensures(BoundedOscParser::push, (parser, bytes), events),
        number_kind(number, kind),
        payload.len() <= 256,
        is_inner(payload),
        bytes@ == bell_report(number, payload) || bytes@ == terminated_report(number, payload),
    ensures
        events@.len() == 1,
        events@[0]@.kind == kind,
        events@[0]@.payload == payload,
        final(parser)@ is Ground,
{
    law_reports_in_the_output_are_found(number, kind, payload);
    let models = crate::pty::activity::osc::osc_models(events@);
    assert(models == seq![OscEventModel { kind, payload }]);
    assert(models.len() == events@.len());
    assert(models[0] == events@[0]@);
}

} // verus!
