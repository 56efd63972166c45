//! Characters and strings: the character classes of the two mini-languages,
//! and conversions between `str`, `String` and sequences of characters.
use vstd::prelude::*;
use vstd::string::StringExecFns;

verus! {

/// `str`'s `==` compares the two strings character by character.
pub assume_specification[ <str as PartialEq>::eq ](a: &str, b: &str) -> (r: bool)
    ensures
        r == (a@ == b@),
;

/// `String::push` appends one character to the end of the string.
#[verifier::external_body]
pub(crate) fn push_char(s: &mut String, c: char)
    ensures
        final(s)@ == old(s)@.push(c),
{
    s.push(c)
}

/// Appends the whole of `tail` to the end of the string.
pub(crate) fn push_text(s: &mut String, tail: &str)
    ensures
        final(s)@ == old(s)@ + tail@,
{
    s.append(tail)
}

pub open spec fn is_ascii_letter(c: char) -> bool {
    ('a' <= c <= 'z') || ('A' <= c <= 'Z')
}

pub open spec fn is_ascii_digit(c: char) -> bool {
    '0' <= c <= '9'
}

/// The characters an identifier may start with: an ASCII letter or `_`.
pub open spec fn is_ident_start(c: char) -> bool {
    is_ascii_letter(c) || c == '_'
}

/// The characters an identifier may continue with: ASCII letters, digits, `_`.
pub open spec fn is_ident_char(c: char) -> bool {
    is_ascii_letter(c) || is_ascii_digit(c) || c == '_'
}

/// The characters with the Unicode property `White_Space`.
pub open spec fn is_whitespace(c: char) -> bool {
    ||| '\u{9}' <= c <= '\u{d}'
    ||| c == ' '
    ||| c == '\u{85}'
    ||| c == '\u{a0}'
    ||| c == '\u{1680}'
    ||| '\u{2000}' <= c <= '\u{200a}'
    ||| c == '\u{2028}'
    ||| c == '\u{2029}'
    ||| c == '\u{202f}'
    ||| c == '\u{205f}'
    ||| c == '\u{3000}'
}

/// The value of a decimal digit, 0 for any other character.
pub open spec fn digit_value(c: char) -> nat {
    if is_ascii_digit(c) {
        (c as u32 - '0' as u32) as nat
    } else {
        0
    }
}

/// The character that writes the digit `d`.
pub open spec fn digit_char(d: nat) -> char
    recommends
        d < 10,
{
    (48 + d) as u8 as char
}

/// The decimal notation of `n`, without leading zeros.
pub open spec fn decimal_text(n: nat) -> Seq<char>
    decreases n,
{
    if n < 10 {
        seq![digit_char(n)]
    } else {
        decimal_text(n / 10).push(digit_char(n % 10))
    }
}

/// The components of `s` between the separators `sep`, from the component
/// that starts at `start` on, of which the characters up to `pos` hold no
/// separator.
pub open spec fn split_from(s: Seq<char>, sep: char, start: int, pos: int) -> Seq<Seq<char>>
    decreases s.len() - pos,
{
    if pos < 0 || pos >= s.len() {
        seq![s.subrange(start, s.len() as int)]
    } else if s[pos] == sep {
        seq![s.subrange(start, pos)] + split_from(s, sep, pos + 1, pos + 1)
    } else {
        split_from(s, sep, start, pos + 1)
    }
}

/// The components of `s` between the separators `sep`: one more than there
/// are separators, empty ones included.
pub open spec fn split(s: Seq<char>, sep: char) -> Seq<Seq<char>> {
    split_from(s, sep, 0, 0)
}

/// The parts one after the other, with the separator `sep` between them.
pub open spec fn join(parts: Seq<Seq<char>>, sep: char) -> Seq<char>
    decreases parts.len(),
{
    if parts.len() == 0 {
        Seq::empty()
    } else if parts.len() == 1 {
        parts[0]
    } else {
        parts[0] + seq![sep] + join(parts.drop_first(), sep)
    }
}

/// There is always at least one component.
pub proof fn lemma_split_from_nonempty(s: Seq<char>, sep: char, start: int, pos: int)
    ensures
        split_from(s, sep, start, pos).len() >= 1,
    decreases s.len() - pos,
{
    if 0 <= pos < s.len() {
        if s[pos] == sep {
            lemma_split_from_nonempty(s, sep, pos + 1, pos + 1);
        } else {
            lemma_split_from_nonempty(s, sep, start, pos + 1);
        }
    }
}

/// Joining the components of a string gives the string back.
pub proof fn lemma_join_of_split(s: Seq<char>, sep: char, start: int, pos: int)
    requires
        0 <= start <= pos <= s.len(),
    ensures
        join(split_from(s, sep, start, pos), sep) == s.subrange(start, s.len() as int),
    decreases s.len() - pos,
{
    if pos < s.len() {
        if s[pos] == sep {
            let head = s.subrange(start, pos);
            let tail = split_from(s, sep, pos + 1, pos + 1);
            lemma_split_from_nonempty(s, sep, pos + 1, pos + 1);
            lemma_join_of_split(s, sep, pos + 1, pos + 1);
            let all = seq![head] + tail;
            assert(all[0] == head);
            assert(all.drop_first() =~= tail);
            assert(head + seq![sep] + s.subrange(pos + 1, s.len() as int) =~= s.subrange(
                start,
                s.len() as int,
            ));
        } else {
            lemma_join_of_split(s, sep, start, pos + 1);
        }
    }
}

/// Characters that are no separator do not end a component.
pub proof fn lemma_split_skip(s: Seq<char>, sep: char, start: int, pos: int, mid: int)
    requires
        0 <= pos <= mid <= s.len(),
        forall|k: int| pos <= k < mid ==> #[trigger] s[k] != sep,
    ensures
        split_from(s, sep, start, pos) == split_from(s, sep, start, mid),
    decreases mid - pos,
{
    if pos < mid {
        lemma_split_skip(s, sep, start, pos + 1, mid);
    }
}

/// The components from a position on are those of the rest of the string.
pub proof fn lemma_split_shift(s: Seq<char>, sep: char, k: int, start: int, pos: int)
    requires
        0 <= k <= start <= pos <= s.len(),
    ensures
        split_from(s, sep, start, pos) == split_from(
            s.subrange(k, s.len() as int),
            sep,
            start - k,
            pos - k,
        ),
    decreases s.len() - pos,
{
    let t = s.subrange(k, s.len() as int);
    if pos < s.len() {
        assert(t[pos - k] == s[pos]);
        if s[pos] == sep {
            lemma_split_shift(s, sep, k, pos + 1, pos + 1);
            assert(s.subrange(start, pos) =~= t.subrange(start - k, pos - k));
        } else {
            lemma_split_shift(s, sep, k, start, pos + 1);
        }
    } else {
        assert(s.subrange(start, s.len() as int) =~= t.subrange(start - k, t.len() as int));
    }
}

pub fn ident_start(c: char) -> (r: bool)
    ensures
        r == is_ident_start(c),
{
    (c >= 'a' && c <= 'z') || (c >= 'A' && c <= 'Z') || c == '_'
}

pub fn ident_char(c: char) -> (r: bool)
    ensures
        r == is_ident_char(c),
{
    (c >= 'a' && c <= 'z') || (c >= 'A' && c <= 'Z') || (c >= '0' && c <= '9') || c == '_'
}

pub fn whitespace(c: char) -> (r: bool)
    ensures
        r == is_whitespace(c),
{
    (c >= '\u{9}' && c <= '\u{d}') || c == ' ' || c == '\u{85}' || c == '\u{a0}' || c == '\u{1680}'
        || (c >= '\u{2000}' && c <= '\u{200a}') || c == '\u{2028}' || c == '\u{2029}' || c
        == '\u{202f}' || c == '\u{205f}' || c == '\u{3000}'
}

/// The value of `c` as a decimal digit, if it is one.
pub fn to_digit(c: char) -> (r: Option<u32>)
    ensures
        r is Some <==> is_ascii_digit(c),
        r matches Some(d) ==> d == digit_value(c) && d < 10,
{
    if c >= '0' && c <= '9' {
        Some(c as u32 - '0' as u32)
    } else {
        None
    }
}

/// The characters of `s`, in order.
pub fn to_chars(s: &str) -> (v: Vec<char>)
    ensures
        v@ == s@,
{
    let mut v: Vec<char> = Vec::new();
    for c in it: s.chars()
        invariant
            v@ == it.seq().take(it.index() as int),
    {
        v.push(c);
    }
    v
}

/// The string made of `chars[from..to]`.
pub fn string_of(chars: &Vec<char>, from: usize, to: usize) -> (s: String)
    requires
        from <= to <= chars.len(),
    ensures
        s@ == chars@.subrange(from as int, to as int),
{
    let mut s = String::new();
    let mut i: usize = from;
    while i < to
        invariant
            from <= i <= to <= chars.len(),
            s@ == chars@.subrange(from as int, i as int),
        decreases to - i,
    {
        push_char(&mut s, chars[i]);
        i += 1;
    }
    s
}

/// The components of `s` between the separators `sep`.
pub fn split_text(s: &str, sep: char) -> (parts: Vec<String>)
    ensures
        parts@.map_values(|p: String| p@) == split(s@, sep),
        parts.len() > 0,
{
    let mut parts: Vec<String> = Vec::new();
    let mut part = String::new();
    let ghost mut start: int = 0;
    let total = s.unicode_len();
    let mut i: usize = 0;
    for c in it: s.chars()
        invariant
            it.seq() == s@,
            s@.len() == total,
            i == it.index(),
            0 <= start <= i,
            part@ == s@.subrange(start, i as int),
            split(s@, sep) == parts@.map_values(|p: String| p@) + split_from(
                s@,
                sep,
                start,
                i as int,
            ),
    {
        let ghost done = parts@.map_values(|p: String| p@);
        if c == sep {
            proof {
                assert(parts@.push(part).map_values(|p: String| p@) =~= done.push(part@));
                assert(done + (seq![part@] + split_from(s@, sep, i + 1, i + 1)) =~= done.push(part@)
                    + split_from(s@, sep, i + 1, i + 1));
                start = i + 1;
            }
            parts.push(part);
            part = String::new();
        } else {
            assert(s@.subrange(start, i + 1) =~= s@.subrange(start, i as int).push(c));
            push_char(&mut part, c);
        }
        i += 1;
    }
    proof {
        let done = parts@.map_values(|p: String| p@);
        assert(parts@.push(part).map_values(|p: String| p@) =~= done.push(part@));
        assert(done + seq![part@] =~= done.push(part@));
    }
    parts.push(part);
    parts
}

/// Appends the decimal notation of `n` to `s`.
pub fn push_decimal(s: &mut String, n: u32)
    ensures
        final(s)@ == old(s)@ + decimal_text(n as nat),
    decreases n,
{
    if n >= 10 {
        push_decimal(s, n / 10);
    }
    let d: u8 = (n % 10) as u8;
    push_char(s, (48u8 + d) as char);
}

} // verus!
