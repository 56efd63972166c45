//! One segment of a route pattern, and how it matches one component of a
//! request path.
use crate::server::url::token::{UrlToken, UrlTokenView};
use crate::server::url::var::{UrlVar, UrlVarView, UrlVars};
use crate::text::{digit_value, is_ascii_digit, push_text, string_of, to_chars, to_digit};
use vstd::prelude::*;

verus! {

/// The portion of a pattern between two `/`: its tokens, in order.
#[derive(Debug, Default, PartialEq, Eq, Clone)]
pub struct UrlSegment {
    pub tokens: Vec<UrlToken>,
}

impl View for UrlSegment {
    type V = Seq<UrlTokenView>;

    open spec fn view(&self) -> Seq<UrlTokenView> {
        self.tokens@.map_values(|t: UrlToken| t@)
    }
}

/// Whether `text` stands in `url` at position `pos`.
pub open spec fn has_text_at(url: Seq<char>, pos: int, text: Seq<char>) -> bool {
    pos + text.len() <= url.len() && url.subrange(pos, pos + text.len()) == text
}

/// The end of the longest run of decimal digits that starts at `pos`.
pub open spec fn digits_end(url: Seq<char>, pos: int) -> int
    decreases url.len() - pos,
{
    if 0 <= pos < url.len() && is_ascii_digit(url[pos]) {
        digits_end(url, pos + 1)
    } else {
        pos
    }
}

/// The number that the digits `url[from..to]` write, modulo 2^32.
pub open spec fn digits_value(url: Seq<char>, from: int, to: int) -> u32
    decreases to - from,
{
    if to <= from {
        0
    } else {
        ((digits_value(url, from, to - 1) * 10 + digit_value(url[to - 1])) % 0x1_0000_0000) as u32
    }
}

/// The number that the digits `url[from..to]` write.
pub open spec fn digits_number(url: Seq<char>, from: int, to: int) -> nat
    decreases to - from,
{
    if to <= from {
        0
    } else {
        digits_number(url, from, to - 1) * 10 + digit_value(url[to - 1])
    }
}

/// The value of a `number` variable is the number that its digits write,
/// modulo 2^32.
pub proof fn number_variable_wraps(url: Seq<char>, from: int, to: int)
    ensures
        digits_value(url, from, to) == digits_number(url, from, to) % 0x1_0000_0000,
    decreases to - from,
{
    if to > from {
        number_variable_wraps(url, from, to - 1);
        let a = digits_number(url, from, to - 1) as int;
        let d = digit_value(url[to - 1]) as int;
        assert(((a % 0x1_0000_0000) * 10 + d) % 0x1_0000_0000 == (a * 10 + d) % 0x1_0000_0000)
            by (nonlinear_arith);
    }
}

/// The end of the longest run of characters other than `stop` that starts at
/// `pos`. Without a `stop` the run goes to the end of `url`.
pub open spec fn text_end(url: Seq<char>, pos: int, stop: Option<char>) -> int
    decreases url.len() - pos,
{
    if 0 <= pos < url.len() && stop != Some(url[pos]) {
        text_end(url, pos + 1, stop)
    } else {
        pos
    }
}

/// What ends a `string` variable that is token `i`: nothing if it is the
/// last token, else the first character of the static text that follows it
/// (`/` if that text is empty).
pub open spec fn stop_after(tokens: Seq<UrlTokenView>, i: int) -> Option<char> {
    if i + 1 < tokens.len() && tokens[i + 1] is Static {
        let text = tokens[i + 1]->Static_0;
        if text.len() > 0 {
            Some(text[0])
        } else {
            Some('/')
        }
    } else {
        None
    }
}

/// Whether a `string` variable may stand at token `i`: it has to be the last
/// token or be followed by static text.
pub open spec fn string_may_stand(tokens: Seq<UrlTokenView>, i: int) -> bool {
    i + 1 >= tokens.len() || tokens[i + 1] is Static
}

/// The outcome of matching a segment against a path component.
pub struct SegmentMatch {
    /// Whether every token matched.
    pub matched: bool,
    /// The variables afterwards: those of before, and the bindings of the
    /// variable tokens that matched before the first token that did not.
    pub vars: Map<Seq<char>, UrlVarView>,
}

/// Matches the tokens from index `i` on against `url` from position `pos`
/// on, left to right. Static text has to stand at the position. A `number`
/// variable takes the longest run of digits, a `string` variable the longest
/// run of characters up to its stop character; either fails on an empty run.
/// What follows the last token in `url` is not looked at.
pub open spec fn match_from(
    tokens: Seq<UrlTokenView>,
    i: int,
    url: Seq<char>,
    pos: int,
    vars: Map<Seq<char>, UrlVarView>,
) -> SegmentMatch
    decreases tokens.len() - i,
{
    if i < 0 || i >= tokens.len() {
        SegmentMatch { matched: true, vars }
    } else {
        match tokens[i] {
            UrlTokenView::Static(text) => {
                if has_text_at(url, pos, text) {
                    match_from(tokens, i + 1, url, pos + text.len(), vars)
                } else {
                    SegmentMatch { matched: false, vars }
                }
            },
            UrlTokenView::Var { name, ty } => {
                if ty == "number"@ {
                    let end = digits_end(url, pos);
                    if end > pos {
                        match_from(
                            tokens,
                            i + 1,
                            url,
                            end,
                            vars.insert(name, UrlVarView::Number(digits_value(url, pos, end))),
                        )
                    } else {
                        SegmentMatch { matched: false, vars }
                    }
                } else if ty == "string"@ {
                    let end = text_end(url, pos, stop_after(tokens, i));
                    if string_may_stand(tokens, i) && end > pos {
                        match_from(
                            tokens,
                            i + 1,
                            url,
                            end,
                            vars.insert(name, UrlVarView::String(url.subrange(pos, end))),
                        )
                    } else {
                        SegmentMatch { matched: false, vars }
                    }
                } else {
                    SegmentMatch { matched: false, vars }
                }
            },
        }
    }
}

/// Matches a whole segment against a whole path component.
pub open spec fn segment_match(
    tokens: Seq<UrlTokenView>,
    url: Seq<char>,
    vars: Map<Seq<char>, UrlVarView>,
) -> SegmentMatch {
    match_from(tokens, 0, url, 0, vars)
}

/// Whether the segment holds a variable.
pub open spec fn has_variable(tokens: Seq<UrlTokenView>) -> bool {
    exists|i: int| 0 <= i < tokens.len() && (#[trigger] tokens[i]) is Var
}

/// The texts of the static tokens among the first `n` tokens, one after the
/// other.
pub open spec fn literal_text(tokens: Seq<UrlTokenView>, n: nat) -> Seq<char>
    decreases n,
{
    if n == 0 {
        Seq::empty()
    } else {
        literal_text(tokens, (n - 1) as nat) + match tokens[n - 1] {
            UrlTokenView::Static(text) => text,
            UrlTokenView::Var { .. } => Seq::empty(),
        }
    }
}

/// The text of a static segment. A segment is static where it holds no
/// variable: its text is what its static tokens say one after the other, and
/// the empty text where it has no token. A segment with a variable is
/// dynamic and has no such text.
pub open spec fn static_text(tokens: Seq<UrlTokenView>) -> Option<Seq<char>> {
    if has_variable(tokens) {
        None
    } else {
        Some(literal_text(tokens, tokens.len()))
    }
}

/// The text of a `string` variable ends at the first stop character: there
/// is none before the end, and the end is the end of the component or the
/// place of a stop character.
pub proof fn string_variable_ends_at_the_first_stop(url: Seq<char>, pos: int, stop: Option<char>)
    requires
        0 <= pos <= url.len(),
    ensures
        pos <= text_end(url, pos, stop) <= url.len(),
        forall|k: int| pos <= k < text_end(url, pos, stop) ==> stop != Some(#[trigger] url[k]),
        text_end(url, pos, stop) == url.len() || stop == Some(url[text_end(url, pos, stop)]),
    decreases url.len() - pos,
{
    if pos < url.len() && stop != Some(url[pos]) {
        string_variable_ends_at_the_first_stop(url, pos + 1, stop);
    }
}

/// The digits of a `number` variable end at the first character that is no
/// digit.
pub proof fn number_variable_ends_at_the_first_other(url: Seq<char>, pos: int)
    requires
        0 <= pos <= url.len(),
    ensures
        pos <= digits_end(url, pos) <= url.len(),
        forall|k: int| pos <= k < digits_end(url, pos) ==> is_ascii_digit(#[trigger] url[k]),
        digits_end(url, pos) == url.len() || !is_ascii_digit(url[digits_end(url, pos)]),
    decreases url.len() - pos,
{
    if pos < url.len() && is_ascii_digit(url[pos]) {
        number_variable_ends_at_the_first_other(url, pos + 1);
    }
}

/// A run that goes on from `pos` to `mid` ends where the run from `mid` ends.
proof fn lemma_digits_end_step(url: Seq<char>, pos: int, mid: int)
    requires
        0 <= pos <= mid <= url.len(),
        forall|k: int| pos <= k < mid ==> is_ascii_digit(#[trigger] url[k]),
    ensures
        digits_end(url, pos) == digits_end(url, mid),
    decreases mid - pos,
{
    if pos < mid {
        lemma_digits_end_step(url, pos + 1, mid);
    }
}

proof fn lemma_text_end_step(url: Seq<char>, pos: int, mid: int, stop: Option<char>)
    requires
        0 <= pos <= mid <= url.len(),
        forall|k: int| pos <= k < mid ==> stop != Some(#[trigger] url[k]),
    ensures
        text_end(url, pos, stop) == text_end(url, mid, stop),
    decreases mid - pos,
{
    if pos < mid {
        lemma_text_end_step(url, pos + 1, mid, stop);
    }
}

impl UrlSegment {
    /// A segment of the given tokens.
    pub fn new(tokens: Vec<UrlToken>) -> (segment: Self)
        ensures
            segment.tokens == tokens,
    {
        UrlSegment { tokens }
    }

    /// A segment without tokens.
    pub fn empty() -> (segment: Self)
        ensures
            segment@ == Seq::<UrlTokenView>::empty(),
    {
        let segment = UrlSegment { tokens: Vec::new() };
        assert(segment@ =~= Seq::<UrlTokenView>::empty());
        segment
    }

    /// Appends `value` as a static token, unless it is empty.
    pub fn push_static(&mut self, value: String)
        ensures
            final(self)@ == if value@.len() == 0 {
                old(self)@
            } else {
                old(self)@.push(UrlTokenView::Static(value@))
            },
    {
        if value.as_str().unicode_len() != 0 {
            self.tokens.push(UrlToken::Static(value));
            assert(self@ =~= old(self)@.push(UrlTokenView::Static(value@)));
        }
    }

    /// Whether the two segments are made of the same tokens.
    pub fn same(&self, other: &UrlSegment) -> (r: bool)
        ensures
            r == (self@ == other@),
    {
        if self.tokens.len() != other.tokens.len() {
            assert(self@.len() != other@.len());
            return false;
        }
        let mut i: usize = 0;
        while i < self.tokens.len()
            invariant
                i <= self.tokens.len(),
                self.tokens.len() == other.tokens.len(),
                forall|k: int| 0 <= k < i ==> self@[k] == other@[k],
            decreases self.tokens.len() - i,
        {
            if !self.tokens[i].same(&other.tokens[i]) {
                assert(self@[i as int] != other@[i as int]);
                return false;
            }
            i += 1;
        }
        assert(self@ =~= other@);
        true
    }

    /// A copy of the segment.
    pub fn duplicate(&self) -> (r: UrlSegment)
        ensures
            r@ == self@,
    {
        let mut tokens: Vec<UrlToken> = Vec::new();
        let mut i: usize = 0;
        while i < self.tokens.len()
            invariant
                i <= self.tokens.len(),
                tokens.len() == i,
                forall|k: int| 0 <= k < i ==> tokens[k]@ == self.tokens[k]@,
            decreases self.tokens.len() - i,
        {
            tokens.push(self.tokens[i].duplicate());
            i += 1;
        }
        let r = UrlSegment { tokens };
        assert(r@ =~= self@);
        r
    }

    /// Appends a token.
    pub fn push(&mut self, token: UrlToken)
        ensures
            final(self)@ == old(self)@.push(token@),
    {
        self.tokens.push(token);
        assert(self@ =~= old(self)@.push(token@));
    }

    /// The text of the segment, if it is static: if it holds no variable.
    /// The text of a segment without tokens is empty.
    pub fn get_static(&self) -> (r: Option<String>)
        ensures
            r is Some <==> static_text(self@) is Some,
            r matches Some(s) ==> Some(s@) == static_text(self@),
    {
        let mut text = String::new();
        let mut i: usize = 0;
        while i < self.tokens.len()
            invariant
                i <= self.tokens.len(),
                forall|k: int| 0 <= k < i ==> (#[trigger] self@[k]) is Static,
                text@ == literal_text(self@, i as nat),
            decreases self.tokens.len() - i,
        {
            assert(self@[i as int] == self.tokens[i as int]@);
            match &self.tokens[i] {
                UrlToken::Static(piece) => {
                    push_text(&mut text, piece.as_str());
                },
                UrlToken::Var { .. } => {
                    assert(has_variable(self@));
                    return None;
                },
            }
            i += 1;
        }
        Some(text)
    }

    /// Matches the segment against the path component `url` and binds the
    /// variables that match in `vars`.
    pub fn matches(&self, url: &str, vars: &mut UrlVars) -> (matched: bool)
        ensures
            matched == segment_match(self@, url@, old(vars)@).matched,
            final(vars)@ == segment_match(self@, url@, old(vars)@).vars,
    {
        let chars = to_chars(url);
        self.matches_inner(&chars, vars)
    }

    /// The same on the characters of the component.
    pub fn matches_inner(&self, chars: &Vec<char>, vars: &mut UrlVars) -> (matched: bool)
        ensures
            matched == segment_match(self@, chars@, old(vars)@).matched,
            final(vars)@ == segment_match(self@, chars@, old(vars)@).vars,
    {
        let mut pos: usize = 0;
        let mut i: usize = 0;
        while i < self.tokens.len()
            invariant
                i <= self.tokens.len(),
                pos <= chars.len(),
                segment_match(self@, chars@, old(vars)@) == match_from(
                    self@,
                    i as int,
                    chars@,
                    pos as int,
                    vars@,
                ),
            decreases self.tokens.len() - i,
        {
            assert(self@[i as int] == self.tokens[i as int]@);
            match &self.tokens[i] {
                UrlToken::Static(text) => {
                    match Self::match_static(text.as_str(), chars, pos) {
                        Some(end) => {
                            pos = end;
                        },
                        None => {
                            return false;
                        },
                    }
                },
                UrlToken::Var { name, ty } => {
                    if ty.as_str().eq("number") {
                        match Self::match_number(chars, pos) {
                            Some((value, end)) => {
                                vars.insert(name.clone(), value);
                                pos = end;
                            },
                            None => {
                                return false;
                            },
                        }
                    } else if ty.as_str().eq("string") {
                        match self.match_str(chars, pos, i) {
                            Some((value, end)) => {
                                vars.insert(name.clone(), value);
                                pos = end;
                            },
                            None => {
                                return false;
                            },
                        }
                    } else {
                        return false;
                    }
                },
            }
            i += 1;
        }
        true
    }

    /// Where `exp` ends in `chars` if it stands at `pos`.
    fn match_static(exp: &str, chars: &Vec<char>, pos: usize) -> (r: Option<usize>)
        requires
            pos <= chars.len(),
        ensures
            r is Some <==> has_text_at(chars@, pos as int, exp@),
            r matches Some(end) ==> end == pos + exp@.len(),
    {
        let mut at: usize = pos;
        let ghost mut seen: Seq<char> = Seq::empty();
        for c in it: exp.chars()
            invariant
                it.seq() == exp@,
                pos <= at <= chars.len(),
                at - pos == it.index(),
                seen == it.seq().take(it.index() as int),
                seen == chars@.subrange(pos as int, at as int),
        {
            if at >= chars.len() || chars[at] != c {
                assert(!has_text_at(chars@, pos as int, exp@)) by {
                    if has_text_at(chars@, pos as int, exp@) {
                        assert(chars@.subrange(pos as int, pos + exp@.len())[at - pos] == c);
                    }
                }
                return None;
            }
            at += 1;
            proof {
                seen = seen.push(c);
            }
        }
        assert(seen == exp@);
        Some(at)
    }

    /// The number written by the digits at `pos`, and where they end.
    fn match_number(chars: &Vec<char>, pos: usize) -> (r: Option<(UrlVar, usize)>)
        requires
            pos <= chars.len(),
        ensures
            r is Some <==> digits_end(chars@, pos as int) > pos,
            r matches Some((value, end)) ==> end == digits_end(chars@, pos as int) && end
                <= chars.len() && value@ == UrlVarView::Number(
                digits_value(chars@, pos as int, end as int),
            ),
    {
        let mut val: u32 = 0;
        let mut at: usize = pos;
        while at < chars.len()
            invariant
                pos <= at <= chars.len(),
                forall|k: int| pos <= k < at ==> is_ascii_digit(#[trigger] chars@[k]),
                val == digits_value(chars@, pos as int, at as int),
            ensures
                at >= chars.len() || !is_ascii_digit(chars@[at as int]),
            decreases chars.len() - at,
        {
            match to_digit(chars[at]) {
                Some(d) => {
                    val = ((val as u64 * 10 + d as u64) % 0x1_0000_0000) as u32;
                    at += 1;
                },
                None => {
                    break ;
                },
            }
        }
        proof {
            lemma_digits_end_step(chars@, pos as int, at as int);
        }
        if at > pos {
            Some((UrlVar::Number(val), at))
        } else {
            None
        }
    }

    /// The text of the `string` variable that is token `id`, read from
    /// `pos`, and where it ends.
    fn match_str(&self, chars: &Vec<char>, pos: usize, id: usize) -> (r: Option<(UrlVar, usize)>)
        requires
            pos <= chars.len(),
            id < self.tokens.len(),
        ensures
            r is Some <==> string_may_stand(self@, id as int) && text_end(
                chars@,
                pos as int,
                stop_after(self@, id as int),
            ) > pos,
            r matches Some((value, end)) ==> end == text_end(
                chars@,
                pos as int,
                stop_after(self@, id as int),
            ) && end <= chars.len() && value@ == UrlVarView::String(
                chars@.subrange(pos as int, end as int),
            ),
    {
        let stop: Option<char> = if id + 1 < self.tokens.len() {
            assert(self@[id + 1] == self.tokens[id + 1]@);
            match &self.tokens[id + 1] {
                UrlToken::Static(text) => {
                    if text.as_str().unicode_len() > 0 {
                        Some(text.as_str().get_char(0))
                    } else {
                        Some('/')
                    }
                },
                _ => {
                    return None;
                },
            }
        } else {
            None
        };
        assert(stop == stop_after(self@, id as int));
        let mut at: usize = pos;
        while at < chars.len() && !Self::is_stop(stop, chars[at])
            invariant
                pos <= at <= chars.len(),
                forall|k: int| pos <= k < at ==> stop != Some(#[trigger] chars@[k]),
            decreases chars.len() - at,
        {
            at += 1;
        }
        proof {
            lemma_text_end_step(chars@, pos as int, at as int, stop);
        }
        if at > pos {
            Some((UrlVar::String(string_of(chars, pos, at)), at))
        } else {
            None
        }
    }

    fn is_stop(stop: Option<char>, c: char) -> (r: bool)
        ensures
            r == (stop == Some(c)),
    {
        match stop {
            Some(s) => s == c,
            None => false,
        }
    }
}

} // verus!
