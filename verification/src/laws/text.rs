//! Texts and their parts.

use crate::pty::activity::process::operands;
use crate::text::{
    ascii_lowered, ascii_tokens, byte_len, bytes_less, char_is_whitespace, concat, contains_part,
    decimal, digits_value, first_at, format_u64, is_ascii_whitespace, is_blank, is_whitespace,
    non_empty_pieces, occurs_at, parse_digits, parse_u32, replace_first, replaced_first,
    replaced_from, split_on, split_once, starts_with, str_chars, str_equal, string_from_chars,
    text_order, token_scan, trim_chars, trim_end, trim_start, trimmed, TextOrder,
};
use vstd::prelude::*;
use vstd::utf8::encode_utf8;

verus! {

/// Pieces put together again with a separator between them.
pub open spec fn glued<A>(pieces: Seq<Seq<A>>, separator: A) -> Seq<A>
    decreases pieces.len(),
{
    if pieces.len() == 0 {
        Seq::empty()
    } else if pieces.len() == 1 {
        pieces[0]
    } else {
        glued(pieces.drop_last(), separator).push(separator) + pieces.last()
    }
}

/// Splitting loses nothing: the pieces, with the separator between them, are what was split, and no piece
/// holds a separator.
pub proof fn law_split_pieces_fit_together<A>(items: Seq<A>, separator: A)
    ensures
        split_on(items, separator).len() > 0,
        glued(split_on(items, separator), separator) == items,
        forall|i: int, k: int|
            0 <= i < split_on(items, separator).len() && 0 <= k < split_on(items, separator)[i].len()
                ==> #[trigger] split_on(items, separator)[i][k] != separator,
    decreases items.len(),
{
    let pieces = split_on(items, separator);
    if items.len() == 0 {
        assert(glued(pieces, separator) =~= items);
    } else {
        let rest = items.drop_last();
        let before = split_on(rest, separator);
        law_split_pieces_fit_together(rest, separator);
        if items.last() == separator {
            assert(pieces.drop_last() =~= before);
            assert(pieces.last() =~= Seq::<A>::empty());
            assert(glued(pieces, separator) == glued(before, separator).push(separator)
                + pieces.last());
            assert(glued(before, separator) == rest);
            assert(rest.push(separator) =~= items);
            assert(items + Seq::<A>::empty() =~= items);
        } else {
            assert(pieces.drop_last() =~= before.drop_last());
            assert(pieces.last() == before.last().push(items.last()));
            assert(rest.push(items.last()) =~= items);
            if before.len() == 1 {
                assert(glued(pieces, separator) == pieces[0]);
                assert(glued(before, separator) == before[0]);
            } else {
                let head = glued(before.drop_last(), separator).push(separator);
                assert(glued(before, separator) == head + before.last());
                assert(glued(pieces, separator) == head + pieces.last());
                assert(head + before.last().push(items.last()) =~= (head + before.last()).push(
                    items.last(),
                ));
            }
            assert forall|i: int, k: int|
                0 <= i < pieces.len() && 0 <= k < pieces[i].len() implies #[trigger] pieces[i][k]
                != separator by {
                if i < before.len() - 1 {
                    assert(pieces[i] == before[i]);
                    assert(before[i][k] != separator);
                } else if k < before.last().len() {
                    assert(before[before.len() - 1][k] != separator);
                }
            }
        }
    }
}

/// A text contains another exactly if it is that one with something before and something behind it.
pub proof fn law_part_stands_inside<A>(s: Seq<A>, part: Seq<A>, before: Seq<A>, behind: Seq<A>)
    ensures
        contains_part(before + part + behind, part),
        starts_with(part + behind, part),
        contains_part(s, part) ==> exists|a: Seq<A>, b: Seq<A>| s == #[trigger] (a + part + b),
        starts_with(s, part) ==> s == part + s.skip(part.len() as int),
{
    let whole = before + part + behind;
    assert(whole.subrange(before.len() as int, before.len() as int + part.len()) =~= part);
    assert(occurs_at(whole, part, before.len() as int));
    assert((part + behind).take(part.len() as int) =~= part);
    if contains_part(s, part) {
        let i = choose|i: int| occurs_at(s, part, i);
        assert(s =~= s.take(i) + s.subrange(i, i + part.len()) + s.skip(i + part.len()));
        assert(s == s.take(i) + part + s.skip(i + part.len()));
    }
    if starts_with(s, part) {
        assert(s =~= s.take(part.len() as int) + s.skip(part.len() as int));
    }
}

/// Lower case keeps every character but the capital letters of the English alphabet, which become the
/// small ones, 32 places on.
pub proof fn law_lower_case_changes_capitals_alone(s: Seq<char>, i: int)
    requires
        0 <= i < s.len(),
    ensures
        ascii_lowered(s).len() == s.len(),
        0x41 <= s[i] as u32 <= 0x5a ==> ascii_lowered(s)[i] as u32 == s[i] as u32 + 32,
        !(0x41 <= s[i] as u32 <= 0x5a) ==> ascii_lowered(s)[i] == s[i],
{
}

proof fn lemma_trim_start(s: Seq<char>) -> (from: int)
    ensures
        0 <= from <= s.len(),
        trim_start(s) == s.skip(from),
        forall|i: int| 0 <= i < from ==> is_whitespace(#[trigger] s[i]),
        from < s.len() ==> !is_whitespace(s[from]),
    decreases s.len(),
{
    if s.len() > 0 && is_whitespace(s[0]) {
        let from = lemma_trim_start(s.drop_first());
        assert(s.drop_first().skip(from) =~= s.skip(from + 1));
        assert forall|i: int| 0 <= i < from + 1 implies is_whitespace(#[trigger] s[i]) by {
            if i > 0 {
                assert(s.drop_first()[i - 1] == s[i]);
            }
        }
        from + 1
    } else {
        assert(s.skip(0) =~= s);
        0
    }
}

proof fn lemma_trim_end(s: Seq<char>) -> (upto: int)
    ensures
        0 <= upto <= s.len(),
        trim_end(s) == s.take(upto),
        forall|i: int| upto <= i < s.len() ==> is_whitespace(#[trigger] s[i]),
        upto > 0 ==> !is_whitespace(s[upto - 1]),
    decreases s.len(),
{
    if s.len() > 0 && is_whitespace(s.last()) {
        let upto = lemma_trim_end(s.drop_last());
        assert(s.drop_last().take(upto) =~= s.take(upto));
        assert forall|i: int| upto <= i < s.len() implies is_whitespace(#[trigger] s[i]) by {
            if i < s.len() - 1 {
                assert(s.drop_last()[i] == s[i]);
            }
        }
        upto
    } else {
        assert(s.take(s.len() as int) =~= s);
        s.len() as int
    }
}

/// Trimming takes blank characters off both ends and nothing else: the rest is a part of the text, what
/// was taken off is blank, and the rest neither begins nor ends with a blank.
pub proof fn law_trimming_takes_blanks_off_the_ends(s: Seq<char>) -> (ends: (int, int))
    ensures
        0 <= ends.0 <= ends.1 <= s.len(),
        trimmed(s) == s.subrange(ends.0, ends.1),
        forall|i: int| 0 <= i < ends.0 || ends.1 <= i < s.len() ==> is_whitespace(#[trigger] s[i]),
        trimmed(s).len() > 0 ==> !is_whitespace(trimmed(s)[0]) && !is_whitespace(trimmed(s).last()),
{
    let from = lemma_trim_start(s);
    let rest = s.skip(from);
    let upto = lemma_trim_end(rest);
    assert(trimmed(s) =~= s.subrange(from, from + upto));
    assert forall|i: int| 0 <= i < from || from + upto <= i < s.len() implies is_whitespace(
        #[trigger] s[i],
    ) by {
        if i >= from {
            assert(rest[i - from] == s[i]);
        }
    }
    (from, from + upto)
}

/// The blanks of a terminal are blank, and nothing that can be seen in ASCII is.
pub proof fn law_blanks(c: char)
    ensures
        c == ' ' || c == '\t' || c == '\n' || c == '\r' ==> is_whitespace(c) && is_ascii_whitespace(c),
        0x21 <= c as u32 <= 0x7e ==> !is_whitespace(c) && !is_ascii_whitespace(c),
{
}

/// Dropping empty pieces keeps the others, in order.
pub proof fn law_empty_pieces_are_dropped(pieces: Seq<Seq<u8>>)
    ensures
        non_empty_pieces(pieces) == pieces.filter(|piece: Seq<u8>| piece.len() > 0),
    decreases pieces.len(),
{
    reveal(Seq::filter);
    if pieces.len() > 0 {
        law_empty_pieces_are_dropped(pieces.drop_last());
    }
}

/// The operands of a command are its arguments that do not begin with a dash, in order.
pub proof fn law_operands_are_not_options(args: Seq<Seq<u8>>)
    ensures
        operands(args) == args.filter(|arg: Seq<u8>| !(arg.len() > 0 && arg[0] == 0x2d)),
    decreases args.len(),
{
    reveal(Seq::filter);
    if args.len() > 0 {
        law_operands_are_not_options(args.drop_last());
    }
}

proof fn lemma_scan_behind(first: Seq<char>, second: Seq<char>)
    requires
        token_scan(first).1.len() == 0,
    ensures
        token_scan(first + second).0 == token_scan(first).0 + token_scan(second).0,
        token_scan(first + second).1 == token_scan(second).1,
    decreases second.len(),
{
    if second.len() == 0 {
        assert(first + second =~= first);
        assert(token_scan(first).1 =~= Seq::<char>::empty());
        assert(token_scan(first).0 + Seq::<Seq<char>>::empty() =~= token_scan(first).0);
    } else {
        lemma_scan_behind(first, second.drop_last());
        assert((first + second).drop_last() =~= first + second.drop_last());
        assert((first + second).last() == second.last());
        assert(token_scan(first + second).0 =~= token_scan(first).0 + token_scan(second).0);
    }
}

/// A blank ends a token and begins another, and nothing else does.
pub proof fn law_tokens_stand_between_blanks(first: Seq<char>, blank: char, second: Seq<char>)
    requires
        is_ascii_whitespace(blank),
    ensures
        ascii_tokens(first.push(blank) + second) == ascii_tokens(first) + ascii_tokens(second),
{
    let head = first.push(blank);
    assert(head.drop_last() =~= first);
    assert(token_scan(head).0 == ascii_tokens(first));
    lemma_scan_behind(head, second);
    assert(ascii_tokens(head + second) =~= ascii_tokens(first) + ascii_tokens(second));
}

/// A text without blanks is one token, and an empty one is none.
pub proof fn law_word_is_one_token(word: Seq<char>)
    requires
        forall|i: int| 0 <= i < word.len() ==> !is_ascii_whitespace(#[trigger] word[i]),
    ensures
        word.len() > 0 ==> ascii_tokens(word) == seq![word],
        word.len() == 0 ==> ascii_tokens(word).len() == 0,
{
    lemma_word(word);
    assert(Seq::<Seq<char>>::empty().push(word) =~= seq![word]);
}

proof fn lemma_word(word: Seq<char>)
    requires
        forall|i: int| 0 <= i < word.len() ==> !is_ascii_whitespace(#[trigger] word[i]),
    ensures
        token_scan(word).0.len() == 0,
        token_scan(word).0 == Seq::<Seq<char>>::empty(),
        token_scan(word).1 == word,
    decreases word.len(),
{
    if word.len() > 0 {
        let rest = word.drop_last();
        assert(forall|i: int| 0 <= i < rest.len() ==> rest[i] == #[trigger] word[i]);
        assert(!is_ascii_whitespace(word[word.len() - 1]));
        lemma_word(rest);
        assert(rest.push(word.last()) =~= word);
    } else {
        assert(token_scan(word).1 =~= word);
    }
}

/// A number that is written out in decimal stands for itself, without a leading zero.
pub proof fn law_decimal_can_be_read_back(n: nat)
    ensures
        digits_value(decimal(n)) == n,
        decimal(n).len() > 0,
        n > 0 ==> decimal(n)[0] != '0',
        forall|i: int| 0 <= i < decimal(n).len() ==> '0' <= #[trigger] decimal(n)[i] <= '9',
    decreases n,
{
    let text = decimal(n);
    if n < 10 {
        assert(text.drop_last() =~= Seq::<char>::empty());
        assert(digits_value(text.drop_last()) == 0);
    } else {
        law_decimal_can_be_read_back(n / 10);
        assert(text.drop_last() =~= decimal(n / 10));
        assert(text[0] == decimal(n / 10)[0]);
        assert forall|i: int| 0 <= i < text.len() implies '0' <= #[trigger] text[i] <= '9' by {
            if i < text.len() - 1 {
                assert(text[i] == decimal(n / 10)[i]);
            }
        }
    }
}

proof fn lemma_first_at(text: Seq<char>, c: char, from: int)
    requires
        0 <= from,
    ensures
        from <= text.len() ==> from <= first_at(text, c, from) <= text.len(),
        first_at(text, c, from) < text.len() ==> text[first_at(text, c, from)] == c,
        forall|i: int| from <= i < first_at(text, c, from) && i < text.len() ==> #[trigger] text[i] != c,
    decreases text.len() - from,
{
    if from < text.len() && text[from] != c {
        lemma_first_at(text, c, from + 1);
    }
}

/// A text is split at the first place of a character: the parts with it between them are the text, and it
/// is not in the first part. Without it there is nothing to split.
pub proof fn law_split_once_is_at_the_first_place(text: Seq<char>, c: char)
    ensures
        split_once(text, c) is Some <==> text.contains(c),
        split_once(text, c) matches Some((before, behind)) ==> text == before.push(c) + behind
            && !before.contains(c),
{
    lemma_first_at(text, c, 0);
    let at = first_at(text, c, 0);
    if at < text.len() {
        assert(text =~= text.take(at).push(c) + text.skip(at + 1));
    }
    if text.contains(c) {
        let i = choose|i: int| 0 <= i < text.len() && text[i] == c;
        assert(text[i] == c);
    }
}

proof fn lemma_replaced(text: Seq<char>, part: Seq<char>, new: Seq<char>, from: int, at: int)
    requires
        0 <= from <= at,
        occurs_at(text, part, at),
        forall|i: int| from <= i < at ==> !#[trigger] occurs_at(text, part, i),
    ensures
        replaced_from(text, part, new, from) == text.take(at) + new + text.skip(at + part.len()),
    decreases at - from,
{
    if from < at {
        assert(!occurs_at(text, part, from));
        lemma_replaced(text, part, new, from + 1, at);
    }
}

/// Replacing a part puts the new text in the place of its first occurrence and leaves the rest.
pub proof fn law_first_occurrence_is_replaced(
    text: Seq<char>,
    part: Seq<char>,
    new: Seq<char>,
    at: int,
)
    requires
        occurs_at(text, part, at),
        forall|i: int| 0 <= i < at ==> !#[trigger] occurs_at(text, part, i),
    ensures
        replaced_first(text, part, new) == text.take(at) + new + text.skip(at + part.len()),
{
    lemma_replaced(text, part, new, 0, at);
}

/// Bytes are ordered by the first place where they differ, and a beginning comes before the whole.
pub proof fn law_order_is_by_the_first_difference(common: Seq<u8>, a: Seq<u8>, b: Seq<u8>)
    ensures
        a.len() > 0 && b.len() > 0 && a[0] != b[0] ==> bytes_less(common + a, common + b) == (a[0] < b[0]),
        a.len() == 0 && b.len() > 0 ==> bytes_less(common + a, common + b),
        b.len() == 0 ==> !bytes_less(common + a, common + b),
    decreases common.len(),
{
    if common.len() == 0 {
        assert(common + a =~= a);
        assert(common + b =~= b);
    } else {
        law_order_is_by_the_first_difference(common.drop_first(), a, b);
        assert((common + a).drop_first() =~= common.drop_first() + a);
        assert((common + b).drop_first() =~= common.drop_first() + b);
    }
}

/// A separator ends one piece and begins another, and nothing else does.
pub proof fn law_separator_parts_pieces<A>(first: Seq<A>, separator: A, second: Seq<A>)
    ensures
        split_on(first.push(separator) + second, separator) == split_on(first, separator) + split_on(
            second,
            separator,
        ),
    decreases second.len(),
{
    law_split_pieces_fit_together(first, separator);
    law_split_pieces_fit_together(second, separator);
    let whole = first.push(separator) + second;
    if second.len() == 0 {
        assert(whole =~= first.push(separator));
        assert(whole.drop_last() =~= first);
        assert(split_on(whole, separator) =~= split_on(first, separator) + split_on(
            second,
            separator,
        ));
    } else {
        let rest = second.drop_last();
        law_separator_parts_pieces(first, separator, rest);
        law_split_pieces_fit_together(rest, separator);
        assert(whole.drop_last() =~= first.push(separator) + rest);
        assert(whole.last() == second.last());
        assert(split_on(whole, separator) =~= split_on(first, separator) + split_on(
            second,
            separator,
        ));
    }
}

/// What holds no separator is one piece.
pub proof fn law_unseparated_is_one_piece<A>(items: Seq<A>, separator: A)
    requires
        !items.contains(separator),
    ensures
        split_on(items, separator) == seq![items],
    decreases items.len(),
{
    if items.len() > 0 {
        let rest = items.drop_last();
        assert(items.contains(items.last()));
        assert(!rest.contains(separator)) by {
            if rest.contains(separator) {
                let i = choose|i: int| 0 <= i < rest.len() && rest[i] == separator;
                assert(items[i] == separator);
            }
        }
        law_unseparated_is_one_piece(rest, separator);
        assert(rest.push(items.last()) =~= items);
        assert(split_on(items, separator) =~= seq![items]);
    } else {
        assert(items =~= Seq::<A>::empty());
        assert(split_on(items, separator) =~= seq![items]);
    }
}

/// A number that is printed is read back as itself, with or without a sign before it, as long as it fits.
pub proof fn law_printed_number_is_read_back(
    n: u64,
    shown: String,
    chars: &[char],
    value: Option<u32>,
    signed: &[char],
    signed_value: Option<u32>,
)
    requires
        call_ensures(format_u64, (n,), shown),
        chars@ == shown@,
        signed@ == seq!['+'] + shown@,
        call_ensures(parse_digits, (chars,), value),
        call_ensures(parse_u32, (signed,), signed_value),
    ensures
        n <= u32::MAX ==> value == Some(n as u32) && signed_value == Some(n as u32),
        n > u32::MAX ==> value is None && signed_value is None,
{
    law_decimal_can_be_read_back(n as nat);
    assert(signed@.drop_first() =~= shown@);
}

/// What is not made of digits is no number.
pub proof fn law_only_digits_are_a_number(chars: &[char], value: Option<u32>, i: int)
    requires
        call_ensures(parse_digits, (chars,), value),
        0 <= i < chars@.len(),
        !('0' <= chars@[i] <= '9'),
    ensures
        value is None,
{
}

/// Text is taken apart and put together without a loss, and compared as it stands.
pub proof fn law_text_is_kept(
    text: &str,
    chars: Vec<char>,
    slice: &[char],
    back: String,
    other: &str,
    joined: String,
    same: bool,
    length: usize,
)
    requires
        call_ensures(str_chars, (text,), chars),
        slice@ == chars@,
        call_ensures(string_from_chars, (slice,), back),
        call_ensures(concat, (text, other), joined),
        call_ensures(str_equal, (text, other), same),
        call_ensures(byte_len, (text,), length),
    ensures
        back@ == text@,
        chars@ == text@,
        joined@.len() == text@.len() + other@.len(),
        joined@.take(text@.len() as int) == text@,
        joined@.skip(text@.len() as int) == other@,
        same <==> text@ == other@,
        length == encode_utf8(text@).len(),
{
    assert(joined@.take(text@.len() as int) =~= text@);
    assert(joined@.skip(text@.len() as int) =~= other@);
}

/// Of two texts one comes first, or they are the same; and seen from the other it is the other way round.
pub proof fn law_order_has_two_sides(a: &str, b: &str, order: TextOrder, reverse: TextOrder)
    requires
        call_ensures(text_order, (a, b), order),
        call_ensures(text_order, (b, a), reverse),
    ensures
        order is Same <==> a@ == b@,
        order is Same <==> reverse is Same,
        order is Before <==> reverse is After,
        order is After <==> reverse is Before,
{
}

/// The blanks of Unicode are these and no others.
pub proof fn law_blanks_of_unicode(c: char, white: bool)
    requires
        call_ensures(char_is_whitespace, (c,), white),
    ensures
        white <==> c == '\u{9}' || c == '\u{a}' || c == '\u{b}' || c == '\u{c}' || c == '\u{d}' || c
            == '\u{20}' || c == '\u{85}' || c == '\u{a0}' || c == '\u{1680}' || ('\u{2000}' <= c && c
            <= '\u{200a}') || c == '\u{2028}' || c == '\u{2029}' || c == '\u{202f}' || c == '\u{205f}' || c
            == '\u{3000}',
        is_ascii_whitespace(c) <==> white && c != '\u{b}' && (c as u32) < 0x80,
{
}

/// A text is blank exactly if trimming leaves nothing of it.
pub proof fn law_blank_text_has_nothing_left(text: &str, blank: bool, chars: &[char], left: Vec<char>)
    requires
        chars@ == text@,
        call_ensures(is_blank, (text,), blank),
        call_ensures(trim_chars, (chars,), left),
    ensures
        blank <==> left@.len() == 0,
{
    let ends = law_trimming_takes_blanks_off_the_ends(text@);
    if ends.0 < ends.1 {
        assert(trimmed(text@)[0] == text@[ends.0]);
    }
}

proof fn lemma_not_replaced(text: Seq<char>, part: Seq<char>, new: Seq<char>, from: int)
    requires
        0 <= from,
        forall|i: int| from <= i ==> !#[trigger] occurs_at(text, part, i),
    ensures
        replaced_from(text, part, new, from) == text,
    decreases text.len() + 1 - from,
{
    if from + part.len() <= text.len() {
        assert(!occurs_at(text, part, from));
        lemma_not_replaced(text, part, new, from + 1);
    }
}

/// Where a part does not occur, nothing is replaced; where it does, its first occurrence is.
pub proof fn law_replacing_is_exact(text: &str, part: &str, new: &str, res: String, at: int)
    requires
        call_ensures(replace_first, (text, part, new), res),
    ensures
        !contains_part(text@, part@) ==> res@ == text@,
        occurs_at(text@, part@, at) && (forall|i: int|
            0 <= i < at ==> !#[trigger] occurs_at(text@, part@, i)) ==> res@ == text@.take(at) + new@
            + text@.skip(at + part@.len()),
{
    if !contains_part(text@, part@) {
        lemma_not_replaced(text@, part@, new@, 0);
    }
    if occurs_at(text@, part@, at) && (forall|i: int|
        0 <= i < at ==> !#[trigger] occurs_at(text@, part@, i)) {
        law_first_occurrence_is_replaced(text@, part@, new@, at);
    }
}

} // verus!
