//! Building text: JSON strings and hexadecimal digits.

use vstd::prelude::*;

verus! {

/// `String::push` of std: appends one character.
#[verifier::external_body]
pub(crate) fn push_char(text: &mut String, c: char)
    ensures
        final(text)@ == old(text)@.push(c),
{
    text.push(c)
}

/// The character that stands for the digit `d` in base sixteen or below.
pub open spec fn digit_char(d: int) -> char {
    if d == 0 {
        '0'
    } else if d == 1 {
        '1'
    } else if d == 2 {
        '2'
    } else if d == 3 {
        '3'
    } else if d == 4 {
        '4'
    } else if d == 5 {
        '5'
    } else if d == 6 {
        '6'
    } else if d == 7 {
        '7'
    } else if d == 8 {
        '8'
    } else if d == 9 {
        '9'
    } else if d == 10 {
        'a'
    } else if d == 11 {
        'b'
    } else if d == 12 {
        'c'
    } else if d == 13 {
        'd'
    } else if d == 14 {
        'e'
    } else {
        'f'
    }
}

/// The digit character of `d`, for `d` below sixteen.
pub(crate) fn digit(d: u32) -> (c: char)
    requires
        d < 16,
    ensures
        c == digit_char(d as int),
{
    if d == 0 {
        '0'
    } else if d == 1 {
        '1'
    } else if d == 2 {
        '2'
    } else if d == 3 {
        '3'
    } else if d == 4 {
        '4'
    } else if d == 5 {
        '5'
    } else if d == 6 {
        '6'
    } else if d == 7 {
        '7'
    } else if d == 8 {
        '8'
    } else if d == 9 {
        '9'
    } else if d == 10 {
        'a'
    } else if d == 11 {
        'b'
    } else if d == 12 {
        'c'
    } else if d == 13 {
        'd'
    } else if d == 14 {
        'e'
    } else {
        'f'
    }
}

/// How one character is written inside a JSON string: the double quote
/// and the backslash behind a backslash, a control character as
/// `\u00` and two hexadecimal digits, anything else as itself.
pub open spec fn json_char(c: char) -> Seq<char> {
    if c == '"' {
        seq!['\\', '"']
    } else if c == '\\' {
        seq!['\\', '\\']
    } else if (c as int) < 0x20 {
        seq!['\\', 'u', '0', '0', digit_char(c as int / 16), digit_char(c as int % 16)]
    } else {
        seq![c]
    }
}

/// The number of the character `c` in Unicode.
fn code_point(c: char) -> (code: u32)
    ensures
        code as int == c as int,
{
    c as u32
}

/// The characters of `s`, each written as inside a JSON string.
pub open spec fn json_escaped(s: Seq<char>) -> Seq<char>
    decreases s.len(),
{
    if s.len() == 0 {
        Seq::empty()
    } else {
        json_escaped(s.drop_last()) + json_char(s.last())
    }
}

/// The JSON array whose one element is the string `s`.
pub open spec fn json_array_of(s: Seq<char>) -> Seq<char> {
    seq!['[', '"'] + json_escaped(s) + seq!['"', ']']
}

/// Writes the JSON array whose one element is the string `s`.
pub fn json_array_text(s: &str) -> (text: String)
    ensures
        text@ == json_array_of(s@),
{
    let mut text = String::new();
    push_char(&mut text, '[');
    push_char(&mut text, '"');
    for c in it: s.chars()
        invariant
            it.seq() == s@,
            text@ == seq!['[', '"'] + json_escaped(s@.take(it.index() as int)),
    {
        let ghost before = text@;
        assert(s@.take(it.index() + 1).drop_last() == s@.take(it.index() as int));
        let code = code_point(c);
        if c == '"' || c == '\\' {
            push_char(&mut text, '\\');
            push_char(&mut text, c);
        } else if code < 0x20 {
            push_char(&mut text, '\\');
            push_char(&mut text, 'u');
            push_char(&mut text, '0');
            push_char(&mut text, '0');
            push_char(&mut text, digit(code / 16));
            push_char(&mut text, digit(code % 16));
        } else {
            push_char(&mut text, c);
        }
        assert(text@ == before + json_char(c));
    }
    assert(s@.take(s@.len() as int) == s@);
    push_char(&mut text, '"');
    push_char(&mut text, ']');
    text
}

/// The number that the digit character `c` stands for, in base sixteen.
pub open spec fn digit_value(c: char) -> int {
    if c == '0' {
        0
    } else if c == '1' {
        1
    } else if c == '2' {
        2
    } else if c == '3' {
        3
    } else if c == '4' {
        4
    } else if c == '5' {
        5
    } else if c == '6' {
        6
    } else if c == '7' {
        7
    } else if c == '8' {
        8
    } else if c == '9' {
        9
    } else if c == 'a' {
        10
    } else if c == 'b' {
        11
    } else if c == 'c' {
        12
    } else if c == 'd' {
        13
    } else if c == 'e' {
        14
    } else {
        15
    }
}

/// Reads back what [`json_escaped`] wrote: the characters that the
/// inside of a JSON string stands for. An escape that [`json_escaped`]
/// never writes ends the reading.
pub open spec fn json_unescaped(t: Seq<char>) -> Seq<char>
    decreases t.len(),
{
    if t.len() == 0 {
        Seq::empty()
    } else if t[0] != '\\' {
        seq![t[0]] + json_unescaped(t.skip(1))
    } else if t.len() >= 2 && (t[1] == '"' || t[1] == '\\') {
        seq![t[1]] + json_unescaped(t.skip(2))
    } else if t.len() >= 6 && t[1] == 'u' {
        seq![(digit_value(t[4]) * 16 + digit_value(t[5])) as char] + json_unescaped(t.skip(6))
    } else {
        Seq::empty()
    }
}

/// The string that is the one element of the JSON array `t`, as
/// written by [`json_array_of`].
pub open spec fn json_array_element(t: Seq<char>) -> Seq<char> {
    json_unescaped(t.subrange(2, t.len() - 2))
}

/// Escaping a string is escaping its first character, then the rest.
pub proof fn lemma_json_escaped_from_the_front(s: Seq<char>)
    requires
        s.len() > 0,
    ensures
        json_escaped(s) == json_char(s[0]) + json_escaped(s.skip(1)),
    decreases s.len(),
{
    if s.len() == 1 {
        assert(s.drop_last() =~= Seq::<char>::empty());
        assert(s.skip(1) =~= Seq::<char>::empty());
        assert(json_escaped(s) =~= json_char(s[0]) + json_escaped(s.skip(1)));
    } else {
        lemma_json_escaped_from_the_front(s.drop_last());
        assert(s.drop_last().skip(1) =~= s.skip(1).drop_last());
        assert(s.skip(1).last() == s.last());
        assert(json_escaped(s) =~= json_char(s[0]) + json_escaped(s.skip(1)));
    }
}

/// Every digit below sixteen is read back from its character.
pub proof fn lemma_digit_round_trip(d: int)
    requires
        0 <= d < 16,
    ensures
        digit_value(digit_char(d)) == d,
{
}

/// A control character is read back from its two hexadecimal digits.
pub proof fn lemma_control_round_trip(c: char)
    requires
        (c as int) < 0x20,
    ensures
        (digit_value(digit_char(c as int / 16)) * 16 + digit_value(digit_char(c as int % 16)))
            as char == c,
{
    lemma_digit_round_trip(c as int / 16);
    lemma_digit_round_trip(c as int % 16);
}

/// JSON escaping loses nothing: reading back the escaped form of any
/// string, whatever quotes, backslashes or control characters it holds,
/// gives the string itself.
pub proof fn lemma_json_round_trip(s: Seq<char>)
    ensures
        json_unescaped(json_escaped(s)) == s,
    decreases s.len(),
{
    if s.len() > 0 {
        let c = s[0];
        let rest = json_escaped(s.skip(1));
        let t = json_escaped(s);
        lemma_json_escaped_from_the_front(s);
        lemma_json_round_trip(s.skip(1));
        if c == '"' || c == '\\' {
            assert(t.skip(2) =~= rest);
        } else if (c as int) < 0x20 {
            assert(t.skip(6) =~= rest);
            lemma_control_round_trip(c);
        } else {
            assert(t.skip(1) =~= rest);
        }
        assert(json_unescaped(t) =~= seq![c] + s.skip(1));
        assert(seq![c] + s.skip(1) =~= s);
    } else {
        assert(json_unescaped(json_escaped(s)) =~= s);
    }
}

/// The one-element JSON array written for a string holds that string,
/// whatever characters it is made of.
pub proof fn lemma_json_array_holds(s: Seq<char>)
    ensures
        json_array_element(json_array_of(s)) == s,
{
    let t = json_array_of(s);
    assert(t.subrange(2, t.len() - 2) =~= json_escaped(s));
    lemma_json_round_trip(s);
}

} // verus!
