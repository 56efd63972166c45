//! The placeholder language of response bodies.
//!
//! In a string of a body, `$name` and `${name}` stand for a captured
//! variable, `${fake.attr}` for a generated value and `${ref.name}` for a
//! named template. Everything else is literal text.
use crate::server::url::error::{UrlError, UrlErrorView};
use crate::server::url::parser::{ident_at, lemma_ident_end_bounds, UrlParser};
use crate::specs::body::body::{Body, BodyView};
use crate::specs::body::dynamic::{Dynamic, DynamicValue, DynamicValueView};
use crate::text::{push_char, to_chars};
use vstd::prelude::*;

verus! {

/// The placeholder whose `$` stands just before `pos`, and the position
/// after the placeholder. Between braces a name may be followed by `.` and a
/// second name: then the first has to be `fake` or `ref`.
pub open spec fn placeholder_at(s: Seq<char>, pos: int) -> Result<
    (DynamicValueView, int),
    UrlErrorView,
> {
    if 0 <= pos < s.len() && s[pos] == '{' {
        match ident_at(s, pos + 1) {
            Err(e) => Err(e),
            Ok((name, end)) => {
                if end < s.len() && s[end] == '.' {
                    if name == "fake"@ || name == "ref"@ {
                        match ident_at(s, end + 1) {
                            Err(e) => Err(e),
                            Ok((target, close)) => {
                                if close < s.len() && s[close] == '}' {
                                    if name == "fake"@ {
                                        Ok((DynamicValueView::Fake(target), close + 1))
                                    } else {
                                        Ok((DynamicValueView::Ref(target), close + 1))
                                    }
                                } else {
                                    Err(UrlErrorView::UnclosedVar(target))
                                }
                            },
                        }
                    } else {
                        Err(UrlErrorView::UnknownObject(name))
                    }
                } else if end < s.len() && s[end] == '}' {
                    Ok((DynamicValueView::Var(name), end + 1))
                } else {
                    Err(UrlErrorView::UnclosedVar(name))
                }
            },
        }
    } else {
        match ident_at(s, pos) {
            Err(e) => Err(e),
            Ok((name, end)) => Ok((DynamicValueView::Var(name), end)),
        }
    }
}

/// The pieces with the pending literal `text` appended as a static piece,
/// unless it is empty.
pub open spec fn flush_piece(pieces: Seq<DynamicValueView>, text: Seq<char>) -> Seq<
    DynamicValueView,
> {
    if text.len() == 0 {
        pieces
    } else {
        pieces.push(DynamicValueView::Static(text))
    }
}

/// The pieces of the whole string, given the pieces of `s[..pos]` and the
/// literal text that is pending after them.
pub open spec fn pieces_from(
    s: Seq<char>,
    pos: int,
    pieces: Seq<DynamicValueView>,
    text: Seq<char>,
) -> Result<Seq<DynamicValueView>, UrlErrorView>
    decreases s.len() - pos,
    via pieces_from_ends
{
    if pos < 0 || pos >= s.len() {
        Ok(flush_piece(pieces, text))
    } else if s[pos] == '$' {
        match placeholder_at(s, pos + 1) {
            Err(e) => Err(e),
            Ok((piece, next)) => pieces_from(
                s,
                next,
                flush_piece(pieces, text).push(piece),
                Seq::empty(),
            ),
        }
    } else {
        pieces_from(s, pos + 1, pieces, text.push(s[pos]))
    }
}

#[via_fn]
proof fn pieces_from_ends(
    s: Seq<char>,
    pos: int,
    pieces: Seq<DynamicValueView>,
    text: Seq<char>,
) {
    if 0 <= pos < s.len() && s[pos] == '$' {
        lemma_placeholder_at_bounds(s, pos + 1);
    }
}

/// The pieces of a string.
pub open spec fn pieces_of(s: Seq<char>) -> Result<Seq<DynamicValueView>, UrlErrorView> {
    pieces_from(s, 0, Seq::empty(), Seq::empty())
}

/// The body that a string of a configuration stands for: the string itself
/// if it holds no `$`, else its pieces.
pub open spec fn parse_text(s: Seq<char>) -> Result<BodyView, UrlErrorView> {
    match pieces_of(s) {
        Err(e) => Err(e),
        Ok(pieces) => {
            if s.contains('$') {
                Ok(BodyView::Dynamic(pieces))
            } else {
                Ok(BodyView::String(s))
            }
        },
    }
}

/// A placeholder that parses ends after its `$`, inside the string or at its
/// end.
pub proof fn lemma_placeholder_at_bounds(s: Seq<char>, pos: int)
    requires
        0 <= pos <= s.len(),
    ensures
        placeholder_at(s, pos) matches Ok((_, next)) ==> pos < next <= s.len(),
{
    if pos < s.len() && s[pos] == '{' {
        if let Ok((name, end)) = ident_at(s, pos + 1) {
            lemma_ident_end_bounds(s, pos + 2);
            if end < s.len() && s[end] == '.' {
                if let Ok((target, close)) = ident_at(s, end + 1) {
                    lemma_ident_end_bounds(s, end + 2);
                }
            }
        }
    } else {
        if let Ok((name, end)) = ident_at(s, pos) {
            lemma_ident_end_bounds(s, pos + 1);
        }
    }
}

impl Body {
    /// The body that the string `value` of a configuration stands for: the
    /// string itself if it holds no `$`, else its pieces.
    pub fn parse(value: String) -> (r: Result<Body, UrlError>)
        ensures
            match parse_text(value@) {
                Err(e) => r matches Err(x) && x@ == e,
                Ok(body) => r matches Ok(b) && b@ == body,
            },
    {
        let chars = to_chars(value.as_str());
        let mut buffer = String::new();
        let mut res: Vec<DynamicValue> = Vec::new();
        let mut found = false;
        let mut pos: usize = 0;
        assert(res@.map_values(|v: DynamicValue| v@) =~= Seq::empty());
        while pos < chars.len()
            invariant
                pos <= chars.len(),
                chars@ == value@,
                found <==> chars@.subrange(0, pos as int).contains('$'),
                pieces_of(chars@) == pieces_from(
                    chars@,
                    pos as int,
                    res@.map_values(|v: DynamicValue| v@),
                    buffer@,
                ),
            decreases chars.len() - pos,
        {
            let ghost done = res@.map_values(|v: DynamicValue| v@);
            let c = chars[pos];
            if c == '$' {
                proof {
                    lemma_placeholder_at_bounds(chars@, pos + 1);
                }
                let (piece, next) = match Self::read_var(&chars, pos + 1) {
                    Ok(read) => read,
                    Err(e) => {
                        return Err(e);
                    },
                };
                let ghost text = buffer@;
                if buffer.as_str().unicode_len() != 0 {
                    res.push(DynamicValue::Static(buffer));
                    buffer = String::new();
                }
                assert(res@.map_values(|v: DynamicValue| v@) =~= flush_piece(done, text));
                assert(buffer@ =~= Seq::empty());
                let ghost flushed = res@.map_values(|v: DynamicValue| v@);
                res.push(piece);
                assert(res@.map_values(|v: DynamicValue| v@) =~= flushed.push(piece@));
                proof {
                    assert(chars@.subrange(0, next as int)[pos as int] == '$');
                }
                found = true;
                pos = next;
            } else {
                push_char(&mut buffer, c);
                proof {
                    let a = chars@.subrange(0, pos as int);
                    let b = chars@.subrange(0, pos + 1);
                    assert(b =~= a.push(c));
                    if b.contains('$') {
                        let k = choose|k: int| 0 <= k < b.len() && b[k] == '$';
                        assert(a[k] == '$');
                    }
                    if a.contains('$') {
                        let k = choose|k: int| 0 <= k < a.len() && a[k] == '$';
                        assert(b[k] == '$');
                    }
                }
                pos = pos + 1;
            }
        }
        assert(chars@.subrange(0, pos as int) =~= chars@);
        if !found {
            return Ok(Body::String(value));
        }
        if buffer.as_str().unicode_len() != 0 {
            let ghost done = res@.map_values(|v: DynamicValue| v@);
            res.push(DynamicValue::Static(buffer));
            assert(res@.map_values(|v: DynamicValue| v@) =~= done.push(
                DynamicValueView::Static(buffer@),
            ));
        }
        Ok(Body::Dynamic(Dynamic::new(res)))
    }

    /// The placeholder whose `$` stands just before `pos`, and the position
    /// after it.
    fn read_var(chars: &Vec<char>, pos: usize) -> (r: Result<(DynamicValue, usize), UrlError>)
        requires
            pos <= chars.len(),
        ensures
            match placeholder_at(chars@, pos as int) {
                Err(e) => r matches Err(x) && x@ == e,
                Ok((piece, next)) => r matches Ok((p, n)) && p@ == piece && n == next,
            },
    {
        if pos >= chars.len() || chars[pos] != '{' {
            return match UrlParser::read_ident(chars, pos) {
                Ok((name, end)) => Ok((DynamicValue::Var(name), end)),
                Err(e) => Err(e),
            };
        }
        let (name, end) = match UrlParser::read_ident(chars, pos + 1) {
            Ok(read) => read,
            Err(e) => {
                return Err(e);
            },
        };
        if end < chars.len() && chars[end] == '.' {
            let fake = name.as_str().eq("fake");
            if !fake && !name.as_str().eq("ref") {
                return Err(UrlError::UnknownObject(name));
            }
            let (target, close) = match UrlParser::read_ident(chars, end + 1) {
                Ok(read) => read,
                Err(e) => {
                    return Err(e);
                },
            };
            if close >= chars.len() || chars[close] != '}' {
                return Err(UrlError::UnclosedVar(target));
            }
            if fake {
                Ok((DynamicValue::Fake(target), close + 1))
            } else {
                Ok((DynamicValue::Ref(target), close + 1))
            }
        } else if end < chars.len() && chars[end] == '}' {
            Ok((DynamicValue::Var(name), end + 1))
        } else {
            Err(UrlError::UnclosedVar(name))
        }
    }
}

} // verus!
