//! Plain-text helpers: exact comparisons, ordering, trimming and number formatting.

use vstd::prelude::*;
use vstd::slice::slice_to_vec;
use vstd::utf8::*;

verus! {

/// `String::push` appends one character at the end of the string.
pub assume_specification[ String::push ](s: &mut String, c: char)
    ensures
        final(s)@ == old(s)@.push(c),
;

/// Exact byte-wise equality of two slices.
pub fn bytes_equal(a: &[u8], b: &[u8]) -> (equal: bool)
    ensures
        equal == (a@ == b@),
{
    if a.len() != b.len() {
        return false;
    }
    let mut i: usize = 0;
    while i < a.len()
        invariant
            i <= a.len(),
            a.len() == b.len(),
            forall|k: int| 0 <= k < i ==> a@[k] == b@[k],
        decreases a.len() - i,
    {
        if a[i] != b[i] {
            assert(a@[i as int] != b@[i as int]);
            return false;
        }
        i = i + 1;
    }
    assert(a@ =~= b@);
    true
}

/// UTF-8 encodings determine the text.
pub proof fn lemma_utf8_injective(a: Seq<char>, b: Seq<char>)
    requires
        encode_utf8(a) == encode_utf8(b),
    ensures
        a == b,
{
    encode_utf8_decode_utf8(a);
    encode_utf8_decode_utf8(b);
}

/// Exact text equality.
pub fn str_equal(a: &str, b: &str) -> (equal: bool)
    ensures
        equal == (a@ == b@),
{
    let equal = bytes_equal(a.as_bytes(), b.as_bytes());
    proof {
        if equal {
            lemma_utf8_injective(a@, b@);
        }
    }
    equal
}

/// The characters of a string as a vector.
pub fn str_chars(s: &str) -> (chars: Vec<char>)
    ensures
        chars@ == s@,
{
    let mut chars: Vec<char> = Vec::new();
    for c in it: s.chars()
        invariant
            it.seq() == s@,
            chars@ == s@.take(it.index()),
    {
        chars.push(c);
        assert(chars@ =~= s@.take(it.index() + 1));
    }
    assert(s@.take(s@.len() as int) =~= s@);
    chars
}

/// The string made of the given characters.
pub fn string_from_chars(chars: &[char]) -> (s: String)
    ensures
        s@ == chars@,
{
    let mut s = String::new();
    let mut i: usize = 0;
    while i < chars.len()
        invariant
            i <= chars.len(),
            s@ == chars@.take(i as int),
        decreases chars.len() - i,
    {
        s.push(chars[i]);
        i = i + 1;
        assert(s@ =~= chars@.take(i as int));
    }
    assert(chars@.take(chars.len() as int) =~= chars@);
    s
}

/// Concatenation of two strings.
pub fn concat(a: &str, b: &str) -> (s: String)
    ensures
        s@ == a@ + b@,
{
    let mut s = a.to_owned();
    s.append(b);
    s
}

/// Concatenation of three strings.
pub fn concat3(a: &str, b: &str, c: &str) -> (s: String)
    ensures
        s@ == a@ + b@ + c@,
{
    let mut s = a.to_owned();
    s.append(b);
    s.append(c);
    s
}

// ---------------------------------------------------------------------------
// Ordering

/// Lexicographic order of byte sequences.
pub open spec fn bytes_less(a: Seq<u8>, b: Seq<u8>) -> bool
    decreases a.len(),
{
    if b.len() == 0 {
        false
    } else if a.len() == 0 {
        true
    } else if a[0] != b[0] {
        a[0] < b[0]
    } else {
        bytes_less(a.drop_first(), b.drop_first())
    }
}

/// Strings are ordered by their UTF-8 bytes.
pub open spec fn text_less(a: Seq<char>, b: Seq<char>) -> bool {
    bytes_less(encode_utf8(a), encode_utf8(b))
}

proof fn lemma_bytes_less_irreflexive(a: Seq<u8>)
    ensures
        !bytes_less(a, a),
    decreases a.len(),
{
    if a.len() > 0 {
        lemma_bytes_less_irreflexive(a.drop_first());
    }
}

proof fn lemma_bytes_less_transitive(a: Seq<u8>, b: Seq<u8>, c: Seq<u8>)
    requires
        bytes_less(a, b),
        bytes_less(b, c),
    ensures
        bytes_less(a, c),
    decreases a.len(),
{
    if a.len() > 0 && b.len() > 0 && c.len() > 0 && a[0] == b[0] && b[0] == c[0] {
        lemma_bytes_less_transitive(a.drop_first(), b.drop_first(), c.drop_first());
    }
}

proof fn lemma_bytes_less_total(a: Seq<u8>, b: Seq<u8>)
    ensures
        bytes_less(a, b) || bytes_less(b, a) || a == b,
    decreases a.len(),
{
    if a.len() > 0 && b.len() > 0 {
        if a[0] == b[0] {
            lemma_bytes_less_total(a.drop_first(), b.drop_first());
            if a.drop_first() == b.drop_first() {
                assert(a =~= seq![a[0]] + a.drop_first());
                assert(b =~= seq![b[0]] + b.drop_first());
            }
        }
    } else if a.len() == 0 && b.len() == 0 {
        assert(a =~= b);
    }
}

/// The order on strings is a strict total order.
pub proof fn lemma_text_order(a: Seq<char>, b: Seq<char>, c: Seq<char>)
    ensures
        !text_less(a, a),
        text_less(a, b) && text_less(b, c) ==> text_less(a, c),
        text_less(a, b) || text_less(b, a) || a == b,
        !(text_less(a, b) && text_less(b, a)),
{
    lemma_bytes_less_irreflexive(encode_utf8(a));
    lemma_bytes_less_total(encode_utf8(a), encode_utf8(b));
    if encode_utf8(a) == encode_utf8(b) {
        lemma_utf8_injective(a, b);
    }
    if text_less(a, b) && text_less(b, c) {
        lemma_bytes_less_transitive(encode_utf8(a), encode_utf8(b), encode_utf8(c));
    }
    if text_less(a, b) && text_less(b, a) {
        lemma_bytes_less_transitive(encode_utf8(a), encode_utf8(b), encode_utf8(a));
    }
}

/// Where one string stands relative to another.
#[derive(Clone, Copy, Debug, PartialEq, Eq, Structural)]
pub enum TextOrder {
    Before,
    Same,
    After,
}

/// Compares two strings by their UTF-8 bytes.
pub fn text_order(a: &str, b: &str) -> (order: TextOrder)
    ensures
        order == TextOrder::Before <==> text_less(a@, b@),
        order == TextOrder::Same <==> a@ == b@,
        order == TextOrder::After <==> text_less(b@, a@),
{
    proof {
        lemma_text_order(a@, b@, a@);
        lemma_text_order(b@, a@, b@);
    }
    let x: &[u8] = a.as_bytes();
    let y: &[u8] = b.as_bytes();
    let mut i: usize = 0;
    assert(x@.skip(0) =~= x@);
    assert(y@.skip(0) =~= y@);
    while i < x.len() && i < y.len()
        invariant
            i <= x.len(),
            i <= y.len(),
            x@ == encode_utf8(a@),
            y@ == encode_utf8(b@),
            forall|k: int| 0 <= k < i ==> x@[k] == y@[k],
            text_less(a@, b@) == bytes_less(x@.skip(i as int), y@.skip(i as int)),
            text_less(b@, a@) == bytes_less(y@.skip(i as int), x@.skip(i as int)),
            text_less(a@, b@) || text_less(b@, a@) || a@ == b@,
            !(text_less(a@, b@) && text_less(b@, a@)),
        decreases x.len() - i,
    {
        assert(x@.skip(i as int)[0] == x@[i as int]);
        assert(y@.skip(i as int)[0] == y@[i as int]);
        if x[i] < y[i] {
            return TextOrder::Before;
        }
        if y[i] < x[i] {
            return TextOrder::After;
        }
        assert(x@.skip(i as int).drop_first() =~= x@.skip(i + 1));
        assert(y@.skip(i as int).drop_first() =~= y@.skip(i + 1));
        i = i + 1;
    }
    if i < y.len() {
        assert(x@.skip(i as int).len() == 0);
        TextOrder::Before
    } else if i < x.len() {
        assert(y@.skip(i as int).len() == 0);
        TextOrder::After
    } else {
        assert(x@ =~= y@);
        proof {
            lemma_utf8_injective(a@, b@);
        }
        TextOrder::Same
    }
}

// ---------------------------------------------------------------------------
// Whitespace

/// The Unicode `White_Space` property.
pub open spec fn is_whitespace(c: char) -> bool {
    let u = c as u32;
    ||| 0x9 <= u <= 0xd
    ||| u == 0x20
    ||| u == 0x85
    ||| u == 0xa0
    ||| u == 0x1680
    ||| 0x2000 <= u <= 0x200a
    ||| u == 0x2028
    ||| u == 0x2029
    ||| u == 0x202f
    ||| u == 0x205f
    ||| u == 0x3000
}

/// Tests the Unicode `White_Space` property.
pub fn char_is_whitespace(c: char) -> (white: bool)
    ensures
        white == is_whitespace(c),
{
    let u: u32 = c as u32;
    (0x9 <= u && u <= 0xd) || u == 0x20 || u == 0x85 || u == 0xa0 || u == 0x1680 || (0x2000 <= u
        && u <= 0x200a) || u == 0x2028 || u == 0x2029 || u == 0x202f || u == 0x205f || u == 0x3000
}

/// Every character is whitespace.
pub open spec fn all_whitespace(s: Seq<char>) -> bool {
    forall|i: int| 0 <= i < s.len() ==> is_whitespace(#[trigger] s[i])
}

/// The text without leading whitespace.
pub open spec fn trim_start(s: Seq<char>) -> Seq<char>
    decreases s.len(),
{
    if s.len() > 0 && is_whitespace(s[0]) {
        trim_start(s.drop_first())
    } else {
        s
    }
}

/// The text without trailing whitespace.
pub open spec fn trim_end(s: Seq<char>) -> Seq<char>
    decreases s.len(),
{
    if s.len() > 0 && is_whitespace(s.last()) {
        trim_end(s.drop_last())
    } else {
        s
    }
}

/// The text without leading and trailing whitespace.
pub open spec fn trimmed(s: Seq<char>) -> Seq<char> {
    trim_end(trim_start(s))
}

/// Removes leading and trailing whitespace from a character vector.
pub fn trim_chars(chars: &[char]) -> (res: Vec<char>)
    ensures
        res@ == trimmed(chars@),
{
    let mut from: usize = 0;
    assert(chars@.skip(0) =~= chars@);
    while from < chars.len() && char_is_whitespace(chars[from])
        invariant
            from <= chars.len(),
            trim_start(chars@) == trim_start(chars@.skip(from as int)),
        decreases chars.len() - from,
    {
        assert(chars@.skip(from as int).drop_first() =~= chars@.skip(from + 1));
        assert(chars@.skip(from as int)[0] == chars@[from as int]);
        from = from + 1;
    }
    let ghost start = chars@.skip(from as int);
    assert(trim_start(chars@) == start) by {
        if from < chars.len() {
            assert(start[0] == chars@[from as int]);
        }
    }
    let mut to: usize = chars.len();
    assert(chars@.subrange(from as int, to as int) =~= start);
    while from < to && char_is_whitespace(chars[to - 1])
        invariant
            from <= to <= chars.len(),
            trim_end(start) == trim_end(chars@.subrange(from as int, to as int)),
        decreases to,
    {
        let ghost cur = chars@.subrange(from as int, to as int);
        assert(cur.last() == chars@[to - 1]);
        assert(cur.drop_last() =~= chars@.subrange(from as int, to - 1));
        to = to - 1;
    }
    let ghost cur = chars@.subrange(from as int, to as int);
    assert(trim_end(cur) == cur) by {
        if from < to {
            assert(cur.last() == chars@[to - 1]);
        }
    }
    let mut res: Vec<char> = Vec::new();
    let mut i: usize = from;
    while i < to
        invariant
            from <= i <= to <= chars.len(),
            res@ == chars@.subrange(from as int, i as int),
        decreases to - i,
    {
        res.push(chars[i]);
        i = i + 1;
        assert(res@ =~= chars@.subrange(from as int, i as int));
    }
    res
}

/// Whether a text is empty once trimmed.
pub fn is_blank(s: &str) -> (blank: bool)
    ensures
        blank == all_whitespace(s@),
{
    for c in it: s.chars()
        invariant
            it.seq() == s@,
            all_whitespace(s@.take(it.index())),
    {
        if !char_is_whitespace(c) {
            assert(s@[it.index()] == c);
            return false;
        }
        assert forall|k: int| 0 <= k < it.index() + 1 implies is_whitespace(
            #[trigger] s@.take(it.index() + 1)[k],
        ) by {
            if k < it.index() {
                assert(s@.take(it.index())[k] == s@[k]);
            }
        }
    }
    assert(s@.take(s@.len() as int) =~= s@);
    true
}

// ---------------------------------------------------------------------------
// Decimal numbers

/// The character of one decimal digit.
pub open spec fn digit_char(d: nat) -> char {
    (('0' as u32) + d) as char
}

/// The decimal notation of a number, without leading zeros.
pub open spec fn decimal(n: nat) -> Seq<char>
    decreases n,
{
    if n < 10 {
        seq![digit_char(n)]
    } else {
        decimal(n / 10).push(digit_char(n % 10))
    }
}

fn digit(d: u64) -> (c: char)
    requires
        d < 10,
    ensures
        c == digit_char(d as nat),
{
    match d {
        0 => '0',
        1 => '1',
        2 => '2',
        3 => '3',
        4 => '4',
        5 => '5',
        6 => '6',
        7 => '7',
        8 => '8',
        _ => '9',
    }
}

/// Formats a number in decimal.
pub fn format_u64(n: u64) -> (s: String)
    ensures
        s@ == decimal(n as nat),
    decreases n,
{
    if n < 10 {
        let mut s = String::new();
        s.push(digit(n));
        assert(s@ =~= seq![digit_char(n as nat)]);
        s
    } else {
        let mut s = format_u64(n / 10);
        s.push(digit(n % 10));
        s
    }
}

/// Formats a number that may need more than 64 bits in decimal.
pub fn format_u128(n: u128) -> (s: String)
    ensures
        s@ == decimal(n as nat),
    decreases n,
{
    if n < 10 {
        let mut s = String::new();
        s.push(digit(n as u64));
        assert(s@ =~= seq![digit_char(n as nat)]);
        s
    } else {
        let mut s = format_u128(n / 10);
        s.push(digit((n % 10) as u64));
        s
    }
}

// ---------------------------------------------------------------------------
// Searching and splitting

/// Decodes bytes with `std::str::from_utf8`.
///
/// There is a text exactly when the bytes are valid UTF-8, and it is the one they encode.
#[verifier::external_body]
pub(crate) fn utf8_text(bytes: &[u8]) -> (text: Option<String>)
    ensures
        text is Some <==> valid_utf8(bytes@),
        text matches Some(t) ==> t@ == decode_utf8(bytes@),
{
    match std::str::from_utf8(bytes) {
        Ok(text) => Some(text.to_owned()),
        Err(_) => None,
    }
}

/// The text that bytes stand for, with what is not valid UTF-8 replaced.
pub uninterp spec fn lossy_text(bytes: Seq<u8>) -> Seq<char>;

/// Decodes bytes with `String::from_utf8_lossy`.
///
/// The result is a function of the bytes, and valid UTF-8 gives the text that it encodes.
#[verifier::external_body]
pub(crate) fn utf8_lossy(bytes: &[u8]) -> (text: String)
    ensures
        text@ == lossy_text(bytes@),
        valid_utf8(bytes@) ==> text@ == decode_utf8(bytes@),
{
    String::from_utf8_lossy(bytes).into_owned()
}

/// A text in quotes, with what cannot be shown escaped.
pub uninterp spec fn quoted_text(text: Seq<char>) -> Seq<char>;

/// Writes a text with the `Debug` of `str`.
///
/// The result is a function of the text.
#[verifier::external_body]
pub(crate) fn quoted(text: &str) -> (res: String)
    ensures
        res@ == quoted_text(text@),
{
    format!("{text:?}")
}

/// The lower-case form of an ASCII letter; every other character is its own.
pub open spec fn ascii_lower(c: char) -> char {
    if 'A' <= c && c <= 'Z' {
        ((c as u8) + 32) as char
    } else {
        c
    }
}

/// A text with its ASCII letters in lower case.
pub open spec fn ascii_lowered(s: Seq<char>) -> Seq<char> {
    Seq::new(s.len(), |i: int| ascii_lower(s[i]))
}

/// Puts ASCII letters in lower case.
pub fn lower_chars(chars: &[char]) -> (res: Vec<char>)
    ensures
        res@ == ascii_lowered(chars@),
{
    let mut res: Vec<char> = Vec::new();
    let mut i: usize = 0;
    while i < chars.len()
        invariant
            i <= chars.len(),
            res@ == ascii_lowered(chars@).take(i as int),
        decreases chars.len() - i,
    {
        let c: char = chars[i];
        if 'A' <= c && c <= 'Z' {
            let lowered: u8 = c as u8 + 32;
            res.push(lowered as char);
        } else {
            res.push(c);
        }
        i = i + 1;
        assert(res@ =~= ascii_lowered(chars@).take(i as int));
    }
    assert(ascii_lowered(chars@).take(i as int) =~= ascii_lowered(chars@));
    res
}

/// A text begins with another.
pub open spec fn starts_with<A>(s: Seq<A>, prefix: Seq<A>) -> bool {
    prefix.len() <= s.len() && s.take(prefix.len() as int) == prefix
}

/// A text contains another at a position.
pub open spec fn occurs_at<A>(s: Seq<A>, part: Seq<A>, i: int) -> bool {
    0 <= i && i + part.len() <= s.len() && s.subrange(i, i + part.len()) == part
}

/// A text contains another.
pub open spec fn contains_part<A>(s: Seq<A>, part: Seq<A>) -> bool {
    exists|i: int| occurs_at(s, part, i)
}

/// Whether characters at a position spell a text.
pub fn chars_match_at(chars: &[char], part: &[char], from: usize) -> (found: bool)
    requires
        from <= chars@.len(),
    ensures
        found == occurs_at(chars@, part@, from as int),
{
    if part.len() > chars.len() - from {
        return false;
    }
    let mut k: usize = 0;
    while k < part.len()
        invariant
            k <= part@.len(),
            from + part@.len() <= chars.len(),
            forall|j: int| 0 <= j < k ==> chars@[from + j] == part@[j],
        decreases part@.len() - k,
    {
        if chars[from + k] != part[k] {
            assert(chars@.subrange(from as int, from + part@.len())[k as int] != part@[k as int]);
            return false;
        }
        k = k + 1;
    }
    assert(chars@.subrange(from as int, from + part@.len()) =~= part@);
    true
}

/// Whether characters begin with a text.
pub fn chars_start_with(chars: &[char], prefix: &str) -> (found: bool)
    ensures
        found == starts_with(chars@, prefix@),
{
    let part = str_chars(prefix);
    let found = chars_match_at(chars, part.as_slice(), 0);
    assert(part@.len() <= chars@.len() ==> chars@.subrange(0, 0 + part@.len() as int)
        =~= chars@.take(part@.len() as int));
    found
}

/// Whether characters contain a text.
pub fn chars_contain(chars: &[char], part: &str) -> (found: bool)
    ensures
        found == contains_part(chars@, part@),
{
    let part_chars = str_chars(part);
    let mut i: usize = 0;
    while i < chars.len()
        invariant
            i <= chars@.len(),
            part_chars@ == part@,
            forall|k: int| 0 <= k < i ==> !occurs_at(chars@, part@, k),
        decreases chars@.len() - i,
    {
        if chars_match_at(chars, part_chars.as_slice(), i) {
            return true;
        }
        i = i + 1;
    }
    chars_match_at(chars, part_chars.as_slice(), i)
}

/// Whether characters spell a text exactly.
pub fn chars_equal(chars: &[char], text: &str) -> (equal: bool)
    ensures
        equal == (chars@ == text@),
{
    let other = str_chars(text);
    if chars.len() != other.len() {
        return false;
    }
    let equal = chars_match_at(chars, other.as_slice(), 0);
    assert(chars@.subrange(0, other@.len() as int) =~= chars@);
    equal
}

/// Whether bytes spell a text exactly.
pub fn bytes_spell(bytes: &[u8], text: &str) -> (equal: bool)
    ensures
        equal == (bytes@ == encode_utf8(text@)),
{
    bytes_equal(bytes, text.as_bytes())
}

/// The pieces of a sequence between occurrences of a separator; there is always at least one.
pub open spec fn split_on<A>(items: Seq<A>, separator: A) -> Seq<Seq<A>>
    decreases items.len(),
{
    if items.len() == 0 {
        seq![Seq::<A>::empty()]
    } else {
        let pieces = split_on(items.drop_last(), separator);
        if items.last() == separator {
            pieces.push(Seq::empty())
        } else {
            pieces.drop_last().push(pieces.last().push(items.last()))
        }
    }
}

/// The contents of a sequence of byte strings.
pub open spec fn byte_views(parts: Seq<Vec<u8>>) -> Seq<Seq<u8>> {
    Seq::new(parts.len(), |i: int| parts[i]@)
}

/// Splits bytes at every separator.
pub fn split_bytes(bytes: &[u8], separator: u8) -> (parts: Vec<Vec<u8>>)
    ensures
        byte_views(parts@) == split_on(bytes@, separator),
        parts@.len() > 0,
{
    let mut parts: Vec<Vec<u8>> = Vec::new();
    let mut current: Vec<u8> = Vec::new();
    let mut i: usize = 0;
    assert(bytes@.take(0) =~= Seq::<u8>::empty());
    assert(byte_views(parts@).push(current@) =~= seq![Seq::<u8>::empty()]);
    while i < bytes.len()
        invariant
            i <= bytes@.len(),
            byte_views(parts@).push(current@) == split_on(bytes@.take(i as int), separator),
        decreases bytes@.len() - i,
    {
        let byte: u8 = bytes[i];
        let ghost before = byte_views(parts@).push(current@);
        let ghost grown = bytes@.take(i + 1);
        assert(grown.drop_last() =~= bytes@.take(i as int));
        assert(grown.last() == byte);
        if byte == separator {
            let mut done: Vec<u8> = Vec::new();
            std::mem::swap(&mut done, &mut current);
            let ghost model = done@;
            parts.push(done);
            assert(byte_views(parts@) =~= before);
        } else {
            let ghost kept = current@;
            current.push(byte);
            assert(before.drop_last() =~= byte_views(parts@));
            assert(before.last() == kept);
        }
        assert(byte_views(parts@).push(current@) =~= split_on(grown, separator));
        i = i + 1;
    }
    assert(bytes@.take(i as int) =~= bytes@);
    let ghost before = byte_views(parts@).push(current@);
    parts.push(current);
    assert(byte_views(parts@) =~= before);
    parts
}

/// Whitespace between the tokens of an ASCII table.
pub open spec fn is_ascii_whitespace(c: char) -> bool {
    c == ' ' || c == '\t' || c == '\n' || c == '\x0c' || c == '\r'
}

/// The tokens read so far, and the one being read.
pub open spec fn token_scan(s: Seq<char>) -> (Seq<Seq<char>>, Seq<char>)
    decreases s.len(),
{
    if s.len() == 0 {
        (Seq::empty(), Seq::empty())
    } else {
        let (tokens, current) = token_scan(s.drop_last());
        if is_ascii_whitespace(s.last()) {
            (
                if current.len() > 0 {
                    tokens.push(current)
                } else {
                    tokens
                },
                Seq::empty(),
            )
        } else {
            (tokens, current.push(s.last()))
        }
    }
}

/// The tokens of a text between runs of ASCII whitespace.
pub open spec fn ascii_tokens(s: Seq<char>) -> Seq<Seq<char>> {
    let (tokens, current) = token_scan(s);
    if current.len() > 0 {
        tokens.push(current)
    } else {
        tokens
    }
}

/// The contents of a sequence of character vectors.
pub open spec fn char_views(parts: Seq<Vec<char>>) -> Seq<Seq<char>> {
    Seq::new(parts.len(), |i: int| parts[i]@)
}

/// Splits characters into tokens.
pub fn split_tokens(chars: &[char]) -> (tokens: Vec<Vec<char>>)
    ensures
        char_views(tokens@) == ascii_tokens(chars@),
{
    let mut tokens: Vec<Vec<char>> = Vec::new();
    let mut current: Vec<char> = Vec::new();
    let mut i: usize = 0;
    assert(chars@.take(0) =~= Seq::<char>::empty());
    assert(char_views(tokens@) =~= Seq::<Seq<char>>::empty());
    while i < chars.len()
        invariant
            i <= chars@.len(),
            (char_views(tokens@), current@) == token_scan(chars@.take(i as int)),
        decreases chars@.len() - i,
    {
        let c: char = chars[i];
        let ghost before = char_views(tokens@);
        let ghost grown = chars@.take(i + 1);
        assert(grown.drop_last() =~= chars@.take(i as int));
        assert(grown.last() == c);
        if c == ' ' || c == '\t' || c == '\n' || c == '\x0c' || c == '\r' {
            if current.len() > 0 {
                let mut done: Vec<char> = Vec::new();
                std::mem::swap(&mut done, &mut current);
                let ghost model = done@;
                tokens.push(done);
                assert(char_views(tokens@) =~= before.push(model));
            }
            assert(current@ =~= Seq::<char>::empty());
        } else {
            current.push(c);
        }
        i = i + 1;
    }
    assert(chars@.take(i as int) =~= chars@);
    let ghost before = char_views(tokens@);
    if current.len() > 0 {
        let ghost model = current@;
        tokens.push(current);
        assert(char_views(tokens@) =~= before.push(model));
    }
    tokens
}

/// The pieces that are not empty.
pub open spec fn non_empty_pieces(pieces: Seq<Seq<u8>>) -> Seq<Seq<u8>>
    decreases pieces.len(),
{
    if pieces.len() == 0 {
        Seq::empty()
    } else {
        let rest = non_empty_pieces(pieces.drop_last());
        if pieces.last().len() > 0 {
            rest.push(pieces.last())
        } else {
            rest
        }
    }
}

/// Drops empty pieces.
pub fn keep_non_empty(parts: Vec<Vec<u8>>) -> (kept: Vec<Vec<u8>>)
    ensures
        byte_views(kept@) == non_empty_pieces(byte_views(parts@)),
{
    let ghost all = byte_views(parts@);
    let mut kept: Vec<Vec<u8>> = Vec::new();
    assert(byte_views(kept@) =~= Seq::<Seq<u8>>::empty());
    assert(all.take(0) =~= Seq::<Seq<u8>>::empty());
    let mut i: usize = 0;
    while i < parts.len()
        invariant
            i <= parts@.len(),
            all == byte_views(parts@),
            byte_views(kept@) == non_empty_pieces(all.take(i as int)),
        decreases parts@.len() - i,
    {
        let ghost before = byte_views(kept@);
        assert(all.take(i + 1).drop_last() =~= all.take(i as int));
        assert(all.take(i + 1).last() == parts@[i as int]@);
        if parts[i].len() > 0 {
            let part = slice_to_vec(parts[i].as_slice());
            let ghost model = part@;
            kept.push(part);
            assert(byte_views(kept@) =~= before.push(model));
        }
        i = i + 1;
    }
    assert(all.take(i as int) =~= all);
    kept
}

/// The number of bytes of a text.
pub open spec fn utf8_len(text: Seq<char>) -> nat {
    encode_utf8(text).len()
}

/// The number of bytes of a text.
pub fn byte_len(text: &str) -> (len: usize)
    ensures
        len == utf8_len(text@),
{
    text.as_bytes().len()
}

/// The bytes of two texts add up.
pub proof fn lemma_utf8_len_concat(a: Seq<char>, b: Seq<char>)
    ensures
        utf8_len(a + b) == utf8_len(a) + utf8_len(b),
    decreases a.len(),
{
    if a.len() == 0 {
        assert(a + b =~= b);
    } else {
        lemma_utf8_len_concat(a.drop_first(), b);
        assert((a + b).drop_first() =~= a.drop_first() + b);
    }
}

/// Every character of ASCII text is one byte.
pub proof fn lemma_utf8_len_ascii(text: Seq<char>)
    requires
        is_ascii_chars(text),
    ensures
        utf8_len(text) == text.len(),
{
    broadcast use is_ascii_chars_encode_utf8;

}

/// A text with the first occurrence of a part at or behind a position replaced.
pub open spec fn replaced_from(text: Seq<char>, part: Seq<char>, new: Seq<char>, from: int) -> Seq<char>
    decreases text.len() + 1 - from,
{
    if from < 0 || from + part.len() > text.len() {
        text
    } else if occurs_at(text, part, from) {
        text.take(from) + new + text.skip(from + part.len())
    } else {
        replaced_from(text, part, new, from + 1)
    }
}

/// A text with the first occurrence of a part replaced; without one it stays as it is.
pub open spec fn replaced_first(text: Seq<char>, part: Seq<char>, new: Seq<char>) -> Seq<char> {
    replaced_from(text, part, new, 0)
}

/// Replaces the first occurrence of a part.
pub fn replace_first(text: &str, part: &str, new: &str) -> (res: String)
    ensures
        res@ == replaced_first(text@, part@, new@),
{
    let chars = str_chars(text);
    let wanted = str_chars(part);
    let mut from: usize = 0;
    while from <= chars.len() && wanted.len() <= chars.len() - from
        invariant
            chars@ == text@,
            wanted@ == part@,
            from <= chars.len(),
            replaced_first(text@, part@, new@) == replaced_from(text@, part@, new@, from as int),
        decreases chars@.len() - from,
    {
        if chars_match_at(chars.as_slice(), wanted.as_slice(), from) {
            let before = vstd::slice::slice_subrange(chars.as_slice(), 0, from);
            let after = vstd::slice::slice_subrange(
                chars.as_slice(),
                from + wanted.len(),
                chars.len(),
            );
            let mut res = string_from_chars(before);
            res.append(new);
            res.append(string_from_chars(after).as_str());
            assert(before@ =~= text@.take(from as int));
            assert(after@ =~= text@.skip(from + part@.len()));
            return res;
        }
        if from == chars.len() {
            assert(text@.subrange(from as int, from + part@.len()) =~= part@);
            return text.to_owned();
        }
        from = from + 1;
    }
    text.to_owned()
}

/// Splits characters at every separator; there is always at least one piece.
pub fn split_chars(chars: &[char], separator: char) -> (parts: Vec<Vec<char>>)
    ensures
        char_views(parts@) == split_on(chars@, separator),
        parts@.len() > 0,
{
    let mut parts: Vec<Vec<char>> = Vec::new();
    let mut current: Vec<char> = Vec::new();
    let mut i: usize = 0;
    assert(chars@.take(0) =~= Seq::<char>::empty());
    assert(char_views(parts@).push(current@) =~= seq![Seq::<char>::empty()]);
    while i < chars.len()
        invariant
            i <= chars@.len(),
            char_views(parts@).push(current@) == split_on(chars@.take(i as int), separator),
        decreases chars@.len() - i,
    {
        let c: char = chars[i];
        let ghost before = char_views(parts@).push(current@);
        let ghost grown = chars@.take(i + 1);
        assert(grown.drop_last() =~= chars@.take(i as int));
        assert(grown.last() == c);
        if c == separator {
            let mut done: Vec<char> = Vec::new();
            std::mem::swap(&mut done, &mut current);
            parts.push(done);
            assert(char_views(parts@) =~= before);
        } else {
            let ghost kept = current@;
            current.push(c);
            assert(before.drop_last() =~= char_views(parts@));
            assert(before.last() == kept);
        }
        assert(char_views(parts@).push(current@) =~= split_on(grown, separator));
        i = i + 1;
    }
    assert(chars@.take(i as int) =~= chars@);
    let ghost before = char_views(parts@).push(current@);
    parts.push(current);
    assert(char_views(parts@) =~= before);
    parts
}

/// The place of the first occurrence of a character at or behind a position, or the length.
pub open spec fn first_at(text: Seq<char>, c: char, from: int) -> int
    decreases text.len() - from,
{
    if from < 0 || from >= text.len() {
        text.len() as int
    } else if text[from] == c {
        from
    } else {
        first_at(text, c, from + 1)
    }
}

/// The parts before and behind the first occurrence of a character, if there is one.
pub open spec fn split_once(text: Seq<char>, c: char) -> Option<(Seq<char>, Seq<char>)> {
    let at = first_at(text, c, 0);
    if 0 <= at < text.len() {
        Some((text.take(at), text.skip(at + 1)))
    } else {
        None
    }
}

/// Splits characters at the first occurrence of one.
pub fn split_once_at(chars: &[char], c: char) -> (parts: Option<(Vec<char>, Vec<char>)>)
    ensures
        match parts {
            Some((before, after)) => split_once(chars@, c) == Some((before@, after@)),
            None => split_once(chars@, c) is None,
        },
{
    let mut at: usize = 0;
    while at < chars.len()
        invariant
            at <= chars@.len(),
            first_at(chars@, c, 0) == first_at(chars@, c, at as int),
        decreases chars@.len() - at,
    {
        if chars[at] == c {
            let before = slice_to_vec(vstd::slice::slice_subrange(chars, 0, at));
            let after = slice_to_vec(vstd::slice::slice_subrange(chars, at + 1, chars.len()));
            assert(before@ =~= chars@.take(at as int));
            assert(after@ =~= chars@.skip(at + 1));
            return Some((before, after));
        }
        at = at + 1;
    }
    None
}

/// A text made of decimal digits only.
pub open spec fn all_digits(text: Seq<char>) -> bool {
    forall|i: int| 0 <= i < text.len() ==> '0' <= #[trigger] text[i] <= '9'
}

/// The number that a text of decimal digits stands for.
pub open spec fn digits_value(text: Seq<char>) -> nat
    decreases text.len(),
{
    if text.len() == 0 {
        0
    } else {
        digits_value(text.drop_last()) * 10 + ((text.last() as u32 - '0' as u32) as nat)
    }
}

/// A text of digits for a number that fits in 32 bits.
pub open spec fn is_u32_digits(text: Seq<char>) -> bool {
    text.len() > 0 && all_digits(text) && digits_value(text) <= u32::MAX
}

/// Reads a number made of decimal digits only.
pub fn parse_digits(chars: &[char]) -> (value: Option<u32>)
    ensures
        value is Some <==> is_u32_digits(chars@),
        value matches Some(v) ==> v == digits_value(chars@),
{
    if chars.len() == 0 {
        return None;
    }
    let mut value: u64 = 0;
    let mut fits: bool = true;
    let mut i: usize = 0;
    assert(chars@.take(0) =~= Seq::<char>::empty());
    while i < chars.len()
        invariant
            i <= chars@.len(),
            all_digits(chars@.take(i as int)),
            fits == (digits_value(chars@.take(i as int)) <= u32::MAX),
            fits ==> value == digits_value(chars@.take(i as int)),
            value <= u32::MAX,
        decreases chars@.len() - i,
    {
        let c: char = chars[i];
        let ghost part = chars@.take(i + 1);
        assert(part.drop_last() =~= chars@.take(i as int));
        assert(part.last() == c);
        if !('0' <= c && c <= '9') {
            assert(!all_digits(chars@));
            return None;
        }
        assert(all_digits(part)) by {
            assert forall|k: int| 0 <= k < part.len() implies '0' <= #[trigger] part[k] <= '9' by {
                if k < i {
                    assert(chars@.take(i as int)[k] == part[k]);
                }
            }
        }
        if fits {
            let next: u64 = value * 10 + (c as u64 - '0' as u64);
            if next > u32::MAX as u64 {
                fits = false;
            } else {
                value = next;
            }
        }
        i = i + 1;
    }
    assert(chars@.take(i as int) =~= chars@);
    if fits {
        Some(value as u32)
    } else {
        None
    }
}

/// The digits of a number, which may stand behind a plus sign.
pub open spec fn unsigned_digits(text: Seq<char>) -> Seq<char> {
    if text.len() > 0 && text[0] == '+' {
        text.drop_first()
    } else {
        text
    }
}

/// Reads a decimal number, which may have a plus sign.
pub fn parse_u32(chars: &[char]) -> (value: Option<u32>)
    ensures
        value is Some <==> is_u32_digits(unsigned_digits(chars@)),
        value matches Some(v) ==> v == digits_value(unsigned_digits(chars@)),
{
    if chars.len() > 0 && chars[0] == '+' {
        let digits = vstd::slice::slice_subrange(chars, 1, chars.len());
        assert(digits@ =~= chars@.drop_first());
        parse_digits(digits)
    } else {
        parse_digits(chars)
    }
}

} // verus!
