//! The parser of route patterns.
//!
//! A pattern is a sequence of segments separated by `/`. A segment is made of
//! literal text and of variables written `{name}` or `{name: type}`. A
//! backslash takes the character after it literally.
use crate::server::url::error::{UrlError, UrlErrorView};
use crate::server::url::segment::UrlSegment;
use crate::server::url::token::{is_var_type, UrlToken, UrlTokenView};
use crate::text::{
    ident_char, ident_start, is_ident_char, is_ident_start, is_whitespace, push_char, string_of,
    to_chars, whitespace,
};
use vstd::prelude::*;

verus! {

/// The end of the longest run of identifier characters that starts at `pos`.
pub open spec fn ident_end(s: Seq<char>, pos: int) -> int
    decreases s.len() - pos,
{
    if 0 <= pos < s.len() && is_ident_char(s[pos]) {
        ident_end(s, pos + 1)
    } else {
        pos
    }
}

/// The end of the longest run of whitespace that starts at `pos`.
pub open spec fn whitespace_end(s: Seq<char>, pos: int) -> int
    decreases s.len() - pos,
{
    if 0 <= pos < s.len() && is_whitespace(s[pos]) {
        whitespace_end(s, pos + 1)
    } else {
        pos
    }
}

/// The identifier that starts at `pos`, and where it ends.
pub open spec fn ident_at(s: Seq<char>, pos: int) -> Result<(Seq<char>, int), UrlErrorView> {
    if pos < 0 || pos >= s.len() {
        Err(UrlErrorView::MissingIdent)
    } else if !is_ident_start(s[pos]) {
        Err(UrlErrorView::IdentStart(s[pos]))
    } else {
        Ok((s.subrange(pos, ident_end(s, pos + 1)), ident_end(s, pos + 1)))
    }
}

/// The variable whose `{` stands at `open`, and the position of its `}`:
/// `{name}` or `{name: type}`. The name follows the `{` directly; whitespace
/// may follow the name, the `:` and the type. Without a type the variable is
/// a `string`.
pub open spec fn var_at(s: Seq<char>, open: int) -> Result<(UrlTokenView, int), UrlErrorView> {
    match ident_at(s, open + 1) {
        Err(e) => Err(e),
        Ok((name, name_end)) => {
            let sep = whitespace_end(s, name_end);
            if sep >= s.len() {
                Err(UrlErrorView::UnclosedVar(name))
            } else if s[sep] == '}' {
                Ok((UrlTokenView::Var { name, ty: "string"@ }, sep))
            } else if s[sep] != ':' {
                Err(UrlErrorView::UnexVarChar { name, exp: ':', found: s[sep] })
            } else {
                match ident_at(s, whitespace_end(s, sep + 1)) {
                    Err(e) => Err(e),
                    Ok((ty, ty_end)) => {
                        let close = whitespace_end(s, ty_end);
                        if close >= s.len() || s[close] != '}' {
                            Err(UrlErrorView::UnclosedVar(name))
                        } else if !is_var_type(ty) {
                            Err(UrlErrorView::InvalidType(ty))
                        } else {
                            Ok((UrlTokenView::Var { name, ty }, close))
                        }
                    },
                }
            }
        },
    }
}

/// The tokens with the pending literal `text` appended as a static token,
/// unless it is empty.
pub open spec fn flush(tokens: Seq<UrlTokenView>, text: Seq<char>) -> Seq<UrlTokenView> {
    if text.len() == 0 {
        tokens
    } else {
        tokens.push(UrlTokenView::Static(text))
    }
}

/// The rest of a segment from `pos` on, after the tokens `tokens` and the
/// pending literal `text`: the tokens of the whole segment, and where the
/// next segment starts. A `/` ends the segment and starts the next one
/// behind it; where the input ends the segment, no segment follows.
pub open spec fn segment_from(
    s: Seq<char>,
    pos: int,
    tokens: Seq<UrlTokenView>,
    text: Seq<char>,
) -> Result<(Seq<UrlTokenView>, Option<int>), UrlErrorView>
    decreases s.len() - pos,
    via segment_from_ends
{
    if pos < 0 || pos >= s.len() {
        Ok((flush(tokens, text), None))
    } else if s[pos] == '{' {
        match var_at(s, pos) {
            Err(e) => Err(e),
            Ok((token, close)) => segment_from(
                s,
                close + 1,
                flush(tokens, text).push(token),
                Seq::empty(),
            ),
        }
    } else if s[pos] == '/' {
        Ok((flush(tokens, text), Some(pos + 1)))
    } else if s[pos] == '\\' {
        if pos + 1 >= s.len() {
            Err(UrlErrorView::EscapeCharMiss)
        } else {
            segment_from(s, pos + 2, tokens, text.push(s[pos + 1]))
        }
    } else {
        segment_from(s, pos + 1, tokens, text.push(s[pos]))
    }
}

#[via_fn]
proof fn segment_from_ends(s: Seq<char>, pos: int, tokens: Seq<UrlTokenView>, text: Seq<char>) {
    if 0 <= pos < s.len() && s[pos] == '{' {
        lemma_var_at_bounds(s, pos);
    }
}

/// The segment that starts at `at`, and where the next one starts; `None`
/// where no segment starts any more.
pub open spec fn segment_at(s: Seq<char>, at: Option<int>) -> Result<
    Option<(Seq<UrlTokenView>, Option<int>)>,
    UrlErrorView,
> {
    match at {
        None => Ok(None),
        Some(pos) => match segment_from(s, pos, Seq::empty(), Seq::empty()) {
            Err(e) => Err(e),
            Ok(found) => Ok(Some(found)),
        },
    }
}

/// The segment that starts at `pos` and all that follow it: one for each
/// portion between two `/`, an empty portion included.
pub open spec fn segments_from(s: Seq<char>, pos: int) -> Result<
    Seq<Seq<UrlTokenView>>,
    UrlErrorView,
>
    decreases s.len() - pos,
    via segments_from_ends
{
    match segment_from(s, pos, Seq::empty(), Seq::empty()) {
        Err(e) => Err(e),
        Ok((tokens, None)) => Ok(seq![tokens]),
        Ok((tokens, Some(next))) => match segments_from(s, next) {
            Err(e) => Err(e),
            Ok(rest) => Ok(seq![tokens] + rest),
        },
    }
}

#[via_fn]
proof fn segments_from_ends(s: Seq<char>, pos: int) {
    if 0 <= pos <= s.len() {
        lemma_segment_from_bounds(s, pos, Seq::empty(), Seq::empty());
    }
}

/// All segments that are left where the next one starts at `at`.
pub open spec fn segments_left(s: Seq<char>, at: Option<int>) -> Result<
    Seq<Seq<UrlTokenView>>,
    UrlErrorView,
> {
    match at {
        None => Ok(Seq::empty()),
        Some(pos) => segments_from(s, pos),
    }
}

/// The segments of a whole pattern: one for each portion between two `/`,
/// the portion before the first `/` and the one behind the last included.
pub open spec fn parse_pattern(s: Seq<char>) -> Result<Seq<Seq<UrlTokenView>>, UrlErrorView> {
    segments_from(s, 0)
}

/// The pattern from `pos` on with its escapes resolved: a backslash is
/// dropped, and the character after it is kept.
pub open spec fn unescaped(s: Seq<char>, pos: int) -> Seq<char>
    decreases s.len() - pos,
{
    if pos < 0 || pos >= s.len() {
        Seq::empty()
    } else if s[pos] == '\\' && pos + 1 < s.len() {
        seq![s[pos + 1]] + unescaped(s, pos + 2)
    } else {
        seq![s[pos]] + unescaped(s, pos + 1)
    }
}

pub proof fn lemma_ident_end_bounds(s: Seq<char>, pos: int)
    requires
        0 <= pos <= s.len(),
    ensures
        pos <= ident_end(s, pos) <= s.len(),
        forall|k: int| pos <= k < ident_end(s, pos) ==> is_ident_char(#[trigger] s[k]),
    decreases s.len() - pos,
{
    if pos < s.len() && is_ident_char(s[pos]) {
        lemma_ident_end_bounds(s, pos + 1);
    }
}

pub proof fn lemma_whitespace_end_bounds(s: Seq<char>, pos: int)
    requires
        0 <= pos <= s.len(),
    ensures
        pos <= whitespace_end(s, pos) <= s.len(),
    decreases s.len() - pos,
{
    if pos < s.len() && is_whitespace(s[pos]) {
        lemma_whitespace_end_bounds(s, pos + 1);
    }
}

proof fn lemma_ident_end_step(s: Seq<char>, pos: int, mid: int)
    requires
        0 <= pos <= mid <= s.len(),
        forall|k: int| pos <= k < mid ==> is_ident_char(#[trigger] s[k]),
    ensures
        ident_end(s, pos) == ident_end(s, mid),
    decreases mid - pos,
{
    if pos < mid {
        lemma_ident_end_step(s, pos + 1, mid);
    }
}

proof fn lemma_whitespace_end_step(s: Seq<char>, pos: int, mid: int)
    requires
        0 <= pos <= mid <= s.len(),
        forall|k: int| pos <= k < mid ==> is_whitespace(#[trigger] s[k]),
    ensures
        whitespace_end(s, pos) == whitespace_end(s, mid),
    decreases mid - pos,
{
    if pos < mid {
        lemma_whitespace_end_step(s, pos + 1, mid);
    }
}

/// A variable that parses is closed after its `{`, inside the input.
pub proof fn lemma_var_at_bounds(s: Seq<char>, open: int)
    requires
        0 <= open < s.len(),
    ensures
        var_at(s, open) matches Ok((_, close)) ==> open < close < s.len(),
{
    if let Ok((name, name_end)) = ident_at(s, open + 1) {
        lemma_ident_end_bounds(s, open + 2);
        lemma_whitespace_end_bounds(s, name_end);
        let sep = whitespace_end(s, name_end);
        if sep < s.len() && s[sep] == ':' {
            lemma_whitespace_end_bounds(s, sep + 1);
            let ty_start = whitespace_end(s, sep + 1);
            if let Ok((ty, ty_end)) = ident_at(s, ty_start) {
                lemma_ident_end_bounds(s, ty_start + 1);
                lemma_whitespace_end_bounds(s, ty_end);
            }
        }
    }
}

/// The segment that follows a segment starts behind the start of that one,
/// inside the input or at its end.
pub proof fn lemma_segment_from_bounds(
    s: Seq<char>,
    pos: int,
    tokens: Seq<UrlTokenView>,
    text: Seq<char>,
)
    requires
        0 <= pos <= s.len(),
    ensures
        segment_from(s, pos, tokens, text) matches Ok((_, Some(next))) ==> pos < next <= s.len(),
    decreases s.len() - pos,
{
    if pos < s.len() {
        if s[pos] == '{' {
            lemma_var_at_bounds(s, pos);
            if let Ok((token, close)) = var_at(s, pos) {
                lemma_segment_from_bounds(
                    s,
                    close + 1,
                    flush(tokens, text).push(token),
                    Seq::empty(),
                );
            }
        } else if s[pos] == '/' {
        } else if s[pos] == '\\' {
            if pos + 1 < s.len() {
                lemma_segment_from_bounds(s, pos + 2, tokens, text.push(s[pos + 1]));
            }
        } else {
            lemma_segment_from_bounds(s, pos + 1, tokens, text.push(s[pos]));
        }
    }
}

/// The state of a `UrlParser`: the pattern, and where the next segment
/// starts (nowhere, once the last segment is read).
pub struct ParserView {
    pub chars: Seq<char>,
    pub at: Option<int>,
}

/// Reads a pattern segment by segment.
pub struct UrlParser {
    chars: Vec<char>,
    pos: usize,
    done: bool,
}

impl View for UrlParser {
    type V = ParserView;

    closed spec fn view(&self) -> ParserView {
        ParserView {
            chars: self.chars@,
            at: if self.done {
                None
            } else {
                Some(self.pos as int)
            },
        }
    }
}

impl UrlParser {
    /// A parser at the start of the pattern `url`.
    pub fn new(url: &str) -> (parser: Self)
        ensures
            parser@ == (ParserView { chars: url@, at: Some(0int) }),
    {
        UrlParser { chars: to_chars(url), pos: 0, done: false }
    }

    /// The next segment, or `None` after the last one. A pattern has one
    /// segment for each portion between two `/`: the empty pattern has one
    /// segment without tokens, and a `/` at the end is followed by one. After
    /// an error the parser stands where it stood.
    pub fn next(&mut self) -> (r: Result<Option<UrlSegment>, UrlError>)
        ensures
            final(self)@.chars == old(self)@.chars,
            match segment_at(old(self)@.chars, old(self)@.at) {
                Err(e) => r matches Err(x) && x@ == e && final(self)@ == old(self)@,
                Ok(None) => r matches Ok(None) && final(self)@ == old(self)@,
                Ok(Some((tokens, next))) => r matches Ok(Some(segment)) && segment@ == tokens
                    && final(self)@.at == next,
            },
    {
        if self.done {
            return Ok(None);
        }
        let ghost start = self.pos as int;
        let mut pos: usize = self.pos;
        let mut segment = UrlSegment::empty();
        let mut seg = String::new();
        let mut ended = false;
        while pos < self.chars.len() && !ended
            invariant
                *self == *old(self),
                !self.done,
                start == self.pos,
                start <= pos,
                ended ==> pos <= self.chars.len(),
                !ended ==> segment_from(self.chars@, start, Seq::empty(), Seq::empty())
                    == segment_from(self.chars@, pos as int, segment@, seg@),
                ended ==> segment_from(self.chars@, start, Seq::empty(), Seq::empty()) == Ok::<
                    (Seq<UrlTokenView>, Option<int>),
                    UrlErrorView,
                >((flush(segment@, seg@), Some(pos as int))),
            decreases self.chars.len() - pos,
        {
            let c = self.chars[pos];
            if c == '{' {
                proof {
                    lemma_var_at_bounds(self.chars@, pos as int);
                }
                segment.push_static(seg);
                seg = String::new();
                match Self::read_var(&self.chars, pos) {
                    Ok((token, close)) => {
                        segment.push(token);
                        pos = close + 1;
                    },
                    Err(e) => {
                        return Err(e);
                    },
                }
            } else if c == '/' {
                pos = pos + 1;
                ended = true;
            } else if c == '\\' {
                if pos + 1 >= self.chars.len() {
                    return Err(UrlError::EscapeCharMiss);
                }
                push_char(&mut seg, self.chars[pos + 1]);
                pos = pos + 2;
            } else {
                push_char(&mut seg, c);
                pos = pos + 1;
            }
        }
        segment.push_static(seg);
        self.pos = pos;
        self.done = !ended;
        Ok(Some(segment))
    }

    /// All segments that are left. After an error the parser stands where
    /// it stood.
    pub fn rest(&mut self) -> (r: Result<Vec<UrlSegment>, UrlError>)
        ensures
            final(self)@.chars == old(self)@.chars,
            match segments_left(old(self)@.chars, old(self)@.at) {
                Err(e) => r matches Err(x) && x@ == e && final(self)@ == old(self)@,
                Ok(segments) => r matches Ok(found) && found@.map_values(|s: UrlSegment| s@)
                    == segments && final(self)@.at is None,
            },
    {
        let start_pos = self.pos;
        let start_done = self.done;
        let mut found: Vec<UrlSegment> = Vec::new();
        assert(found@.map_values(|s: UrlSegment| s@) =~= Seq::<Seq<UrlTokenView>>::empty());
        proof {
            if let Ok(rest) = segments_left(self@.chars, self@.at) {
                assert(Seq::<Seq<UrlTokenView>>::empty() + rest =~= rest);
            }
        }
        loop
            invariant
                self@.chars == old(self)@.chars,
                start_pos == old(self).pos,
                start_done == old(self).done,
                segments_left(old(self)@.chars, old(self)@.at) == match segments_left(
                    self@.chars,
                    self@.at,
                ) {
                    Err(e) => Err::<Seq<Seq<UrlTokenView>>, UrlErrorView>(e),
                    Ok(rest) => Ok(found@.map_values(|s: UrlSegment| s@) + rest),
                },
            decreases
                    (if self.done {
                        0int
                    } else if self.pos <= self.chars.len() {
                        self.chars.len() - self.pos + 1
                    } else {
                        1int
                    }),
        {
            proof {
                if !self.done && self.pos <= self.chars.len() {
                    lemma_segment_from_bounds(
                        self.chars@,
                        self.pos as int,
                        Seq::empty(),
                        Seq::empty(),
                    );
                }
            }
            match self.next() {
                Ok(Some(segment)) => {
                    proof {
                        let done = found@.map_values(|s: UrlSegment| s@);
                        assert(found@.push(segment).map_values(|s: UrlSegment| s@) =~= done.push(
                            segment@,
                        ));
                        match segments_left(self@.chars, self@.at) {
                            Ok(rest) => {
                                assert(done + (seq![segment@] + rest) =~= done.push(segment@)
                                    + rest);
                            },
                            Err(e) => {},
                        }
                        if self@.at is None {
                            assert(done + seq![segment@] =~= done.push(segment@)
                                + Seq::<Seq<UrlTokenView>>::empty());
                        }
                    }
                    found.push(segment);
                },
                Ok(None) => {
                    proof {
                        let done = found@.map_values(|s: UrlSegment| s@);
                        assert(done + Seq::<Seq<UrlTokenView>>::empty() =~= done);
                    }
                    return Ok(found);
                },
                Err(e) => {
                    self.pos = start_pos;
                    self.done = start_done;
                    return Err(e);
                },
            }
        }
    }

    /// The variable whose `{` stands at `open`, and the position of its `}`.
    fn read_var(chars: &Vec<char>, open: usize) -> (r: Result<(UrlToken, usize), UrlError>)
        requires
            open < chars.len(),
        ensures
            match var_at(chars@, open as int) {
                Err(e) => r matches Err(x) && x@ == e,
                Ok((token, close)) => r matches Ok((t, c)) && t@ == token && c == close,
            },
    {
        let (name, name_end) = match Self::read_ident(chars, open + 1) {
            Ok(found) => found,
            Err(e) => {
                return Err(e);
            },
        };
        let sep = Self::skip_whitespace(chars, name_end);
        if sep >= chars.len() {
            return Err(UrlError::UnclosedVar(name));
        }
        if chars[sep] == '}' {
            return Ok((UrlToken::string(name), sep));
        }
        if chars[sep] != ':' {
            return Err(UrlError::unex_var_char(name, ':', chars[sep]));
        }
        let ty_start = Self::skip_whitespace(chars, sep + 1);
        let (ty, ty_end) = match Self::read_ident(chars, ty_start) {
            Ok(found) => found,
            Err(e) => {
                return Err(e);
            },
        };
        let close = Self::skip_whitespace(chars, ty_end);
        if close >= chars.len() || chars[close] != '}' {
            return Err(UrlError::UnclosedVar(name));
        }
        match UrlToken::var(name, ty) {
            Ok(token) => Ok((token, close)),
            Err(e) => Err(e),
        }
    }

    /// The identifier that starts at `pos`, and where it ends. Route
    /// patterns and response templates share their identifiers.
    pub(crate) fn read_ident(chars: &Vec<char>, pos: usize) -> (r: Result<(String, usize), UrlError>)
        requires
            pos <= chars.len(),
        ensures
            match ident_at(chars@, pos as int) {
                Err(e) => r matches Err(x) && x@ == e,
                Ok((name, end)) => r matches Ok((n, e)) && n@ == name && e == end && e
                    <= chars.len(),
            },
    {
        if pos >= chars.len() {
            return Err(UrlError::MissingIdent);
        }
        if !ident_start(chars[pos]) {
            return Err(UrlError::IdentStart(chars[pos]));
        }
        let mut end: usize = pos + 1;
        while end < chars.len() && ident_char(chars[end])
            invariant
                pos < end <= chars.len(),
                forall|k: int| pos + 1 <= k < end ==> is_ident_char(#[trigger] chars@[k]),
            decreases chars.len() - end,
        {
            end += 1;
        }
        proof {
            lemma_ident_end_step(chars@, pos + 1, end as int);
        }
        Ok((string_of(chars, pos, end), end))
    }

    /// The end of the whitespace that starts at `pos`.
    fn skip_whitespace(chars: &Vec<char>, pos: usize) -> (end: usize)
        requires
            pos <= chars.len(),
        ensures
            end == whitespace_end(chars@, pos as int),
            pos <= end <= chars.len(),
    {
        let mut end: usize = pos;
        while end < chars.len() && whitespace(chars[end])
            invariant
                pos <= end <= chars.len(),
                forall|k: int| pos <= k < end ==> is_whitespace(#[trigger] chars@[k]),
            decreases chars.len() - end,
        {
            end += 1;
        }
        proof {
            lemma_whitespace_end_step(chars@, pos as int, end as int);
        }
        end
    }
}

} // verus!
