//! Anchored shell-style glob patterns: `*` (zero or more characters),
//! `?` (exactly one character), `[…]` character classes and `[!…]` negated
//! classes. A pattern always matches the whole input, never a part of it.

use crate::text::chars_of;
use vstd::prelude::*;

verus! {

/// One element of a compiled glob pattern.
#[derive(Debug, Clone, PartialEq, Eq)]
pub enum Token {
    /// A literal character.
    Lit(char),
    /// `?`: exactly one arbitrary character.
    One,
    /// `*`: zero or more arbitrary characters.
    Many,
    /// `[…]` or `[!…]`: one character tested against a set of ranges; a
    /// single character stands for the range from itself to itself.
    Class { negated: bool, ranges: Vec<(char, char)> },
}

/// The mathematical form of a token, with the class ranges as a sequence.
pub enum TokenModel {
    Lit(char),
    One,
    Many,
    Class { negated: bool, ranges: Seq<(char, char)> },
}

impl View for Token {
    type V = TokenModel;

    open spec fn view(&self) -> TokenModel {
        match self {
            Token::Lit(l) => TokenModel::Lit(*l),
            Token::One => TokenModel::One,
            Token::Many => TokenModel::Many,
            Token::Class { negated, ranges } => TokenModel::Class {
                negated: *negated,
                ranges: ranges@,
            },
        }
    }
}

/// Whether `c` falls in the inclusive range `lo..=hi`.
pub open spec fn in_range(lo: char, hi: char, c: char) -> bool {
    lo <= c <= hi
}

/// Whether a character class with the given ranges and polarity accepts `c`.
pub open spec fn class_accepts(negated: bool, ranges: Seq<(char, char)>, c: char) -> bool {
    let inside = exists|i: int|
        0 <= i < ranges.len() && in_range((#[trigger] ranges[i]).0, ranges[i].1, c);
    if negated {
        !inside
    } else {
        inside
    }
}

/// Whether a single-character token accepts `c`. `Many` never stands for a
/// single character; `glob_match` treats it separately.
pub open spec fn token_accepts(t: TokenModel, c: char) -> bool {
    match t {
        TokenModel::Lit(l) => l == c,
        TokenModel::One => true,
        TokenModel::Many => false,
        TokenModel::Class { negated, ranges } => class_accepts(negated, ranges, c),
    }
}

/// Anchored glob matching: the whole of `s` must be consumed by the whole
/// of `p`. A `Many` token either matches nothing or absorbs the first
/// character of the input and stays in force.
pub open spec fn glob_match(p: Seq<TokenModel>, s: Seq<char>) -> bool
    decreases p.len(), s.len(),
{
    if p.len() == 0 {
        s.len() == 0
    } else if p[0] is Many {
        glob_match(p.drop_first(), s) || (s.len() > 0 && glob_match(p, s.drop_first()))
    } else {
        s.len() > 0 && token_accepts(p[0], s[0]) && glob_match(p.drop_first(), s.drop_first())
    }
}

/// The entries of a character class, read until the closing `]`: `Some`
/// holds the ranges and what follows the `]`; `None` means the class never
/// closes. An entry `a-z` (whose upper end is not `]`) is a range; any
/// other character is the one-character range from itself to itself.
pub open spec fn parse_class_entries(p: Seq<char>) -> Option<(Seq<(char, char)>, Seq<char>)>
    decreases p.len(),
{
    if p.len() == 0 {
        None
    } else if p[0] == ']' {
        Some((Seq::empty(), p.drop_first()))
    } else if p.len() >= 3 && p[1] == '-' && p[2] != ']' {
        match parse_class_entries(p.skip(3)) {
            Some(pair) => Some((seq![(p[0], p[2])] + pair.0, pair.1)),
            None => None,
        }
    } else {
        match parse_class_entries(p.drop_first()) {
            Some(pair) => Some((seq![(p[0], p[0])] + pair.0, pair.1)),
            None => None,
        }
    }
}

/// Whatever follows a parsed class is shorter than the class text itself.
proof fn lemma_parse_class_entries_shrinks(p: Seq<char>)
    ensures
        parse_class_entries(p) matches Some(pair) ==> pair.1.len() < p.len(),
    decreases p.len(),
{
    if p.len() == 0 {
    } else if p[0] == ']' {
    } else if p.len() >= 3 && p[1] == '-' && p[2] != ']' {
        lemma_parse_class_entries_shrinks(p.skip(3));
    } else {
        lemma_parse_class_entries_shrinks(p.drop_first());
    }
}

/// The compiled form of a pattern, or `None` when the pattern is invalid:
/// a class that never closes, or an empty class `[]` / `[!]`.
pub open spec fn compile_spec(p: Seq<char>) -> Option<Seq<TokenModel>>
    decreases p.len(),
    via compile_spec_decreases
{
    if p.len() == 0 {
        Some(Seq::empty())
    } else if p[0] == '*' {
        match compile_spec(p.drop_first()) {
            Some(ts) => Some(seq![TokenModel::Many] + ts),
            None => None,
        }
    } else if p[0] == '?' {
        match compile_spec(p.drop_first()) {
            Some(ts) => Some(seq![TokenModel::One] + ts),
            None => None,
        }
    } else if p[0] == '[' {
        let negated = p.len() >= 2 && p[1] == '!';
        let body = if negated {
            p.skip(2)
        } else {
            p.drop_first()
        };
        match parse_class_entries(body) {
            Some(pair) => if pair.0.len() == 0 {
                None
            } else {
                match compile_spec(pair.1) {
                    Some(ts) => Some(seq![TokenModel::Class { negated, ranges: pair.0 }] + ts),
                    None => None,
                }
            },
            None => None,
        }
    } else {
        match compile_spec(p.drop_first()) {
            Some(ts) => Some(seq![TokenModel::Lit(p[0])] + ts),
            None => None,
        }
    }
}

#[via_fn]
proof fn compile_spec_decreases(p: Seq<char>) {
    if p.len() > 0 && p[0] != '*' && p[0] != '?' && p[0] == '[' {
        let negated = p.len() >= 2 && p[1] == '!';
        let body = if negated {
            p.skip(2)
        } else {
            p.drop_first()
        };
        lemma_parse_class_entries_shrinks(body);
    }
}

/// The mathematical form of a token vector.
pub open spec fn tokens_model(ts: Seq<Token>) -> Seq<TokenModel> {
    ts.map_values(|t: Token| t@)
}

/// An invalid glob pattern: a character class that never closes, or an
/// empty class.
#[derive(Debug, Clone, Copy, PartialEq, Eq, Structural)]
pub struct PatternError;

/// A compiled glob pattern. Its view is the compiled token sequence.
#[derive(Debug, Clone, PartialEq, Eq)]
pub struct Pattern {
    tokens: Vec<Token>,
}

impl View for Pattern {
    type V = Seq<TokenModel>;

    closed spec fn view(&self) -> Seq<TokenModel> {
        tokens_model(self.tokens@)
    }
}

/// Whether `c` falls in one of the ranges.
fn class_contains(ranges: &Vec<(char, char)>, c: char) -> (r: bool)
    ensures
        r == exists|i: int|
            0 <= i < ranges@.len() && in_range((#[trigger] ranges@[i]).0, ranges@[i].1, c),
{
    let mut i: usize = 0;
    while i < ranges.len()
        invariant
            i <= ranges@.len(),
            forall|j: int| 0 <= j < i ==> !in_range((#[trigger] ranges@[j]).0, ranges@[j].1, c),
        decreases ranges@.len() - i,
    {
        let (lo, hi) = ranges[i];
        if lo <= c && c <= hi {
            return true;
        }
        i = i + 1;
    }
    false
}

/// Recursive matcher over the token and input suffixes starting at `pi`
/// and `si`.
fn match_at(p: &Vec<Token>, s: &Vec<char>, pi: usize, si: usize) -> (r: bool)
    requires
        pi <= p@.len(),
        si <= s@.len(),
    ensures
        r == glob_match(tokens_model(p@).skip(pi as int), s@.skip(si as int)),
    decreases p@.len() - pi, s@.len() - si,
{
    let ghost pm = tokens_model(p@).skip(pi as int);
    let ghost sm = s@.skip(si as int);
    if pi == p.len() {
        assert(pm =~= Seq::<TokenModel>::empty());
        return si == s.len();
    }
    proof {
        assert(pm[0] == p@[pi as int]@);
        assert(pm.drop_first() =~= tokens_model(p@).skip(pi + 1));
        if si < s@.len() {
            assert(sm[0] == s@[si as int]);
            assert(sm.drop_first() =~= s@.skip(si + 1));
        }
    }
    match &p[pi] {
        Token::Many => {
            if match_at(p, s, pi + 1, si) {
                true
            } else if si < s.len() {
                match_at(p, s, pi, si + 1)
            } else {
                false
            }
        },
        Token::One => {
            if si < s.len() {
                match_at(p, s, pi + 1, si + 1)
            } else {
                false
            }
        },
        Token::Lit(l) => {
            if si < s.len() && *l == s[si] {
                match_at(p, s, pi + 1, si + 1)
            } else {
                false
            }
        },
        Token::Class { negated, ranges } => {
            if si < s.len() {
                let inside = class_contains(ranges, s[si]);
                let accepted = if *negated {
                    !inside
                } else {
                    inside
                };
                if accepted {
                    match_at(p, s, pi + 1, si + 1)
                } else {
                    false
                }
            } else {
                false
            }
        },
    }
}

/// Recursive class parser over the pattern text from index `j`; on success
/// it returns the ranges and the index just past the closing `]`.
fn parse_class_at(p: &Vec<char>, j: usize) -> (r: Result<(Vec<(char, char)>, usize), PatternError>)
    requires
        j <= p@.len(),
    ensures
        r matches Ok(pair) ==> {
            &&& j < pair.1 <= p@.len()
            &&& parse_class_entries(p@.skip(j as int)) == Some((pair.0@, p@.skip(pair.1 as int)))
        },
        r is Err <==> parse_class_entries(p@.skip(j as int)) is None,
    decreases p@.len() - j,
{
    let ghost rest = p@.skip(j as int);
    if j == p.len() {
        assert(rest =~= Seq::<char>::empty());
        return Err(PatternError);
    }
    proof {
        assert(rest[0] == p@[j as int]);
        assert(rest.drop_first() =~= p@.skip(j + 1));
    }
    let c = p[j];
    if c == ']' {
        Ok((Vec::new(), j + 1))
    } else if p.len() - j >= 3 && p[j + 1] == '-' && p[j + 2] != ']' {
        proof {
            assert(rest[1] == p@[j + 1]);
            assert(rest[2] == p@[j + 2]);
            assert(rest.skip(3) =~= p@.skip(j + 3));
        }
        let hi = p[j + 2];
        match parse_class_at(p, j + 3) {
            Ok((mut ranges, after)) => {
                let ghost tail = ranges@;
                ranges.insert(0, (c, hi));
                proof {
                    assert(ranges@ =~= seq![(c, hi)] + tail);
                }
                Ok((ranges, after))
            },
            Err(e) => Err(e),
        }
    } else {
        proof {
            // The range branch of the parse is off: the text is too short,
            // or the next character is not `-`, or the range ends at `]`.
            assert(!(rest.len() >= 3 && rest[1] == '-' && rest[2] != ']'));
        }
        match parse_class_at(p, j + 1) {
            Ok((mut ranges, after)) => {
                let ghost tail = ranges@;
                ranges.insert(0, (c, c));
                proof {
                    assert(ranges@ =~= seq![(c, c)] + tail);
                }
                Ok((ranges, after))
            },
            Err(e) => Err(e),
        }
    }
}

/// Prepending a token to a vector prepends its model to the vector's model.
proof fn lemma_tokens_model_prepend(t: Token, tail: Seq<Token>)
    ensures
        tokens_model(tail.insert(0, t)) == seq![t@] + tokens_model(tail),
{
    assert(tail.insert(0, t) =~= seq![t] + tail);
    assert(tokens_model(tail.insert(0, t)) =~= seq![t@] + tokens_model(tail));
}

/// Recursive compiler over the pattern text from index `i`.
fn compile_at(p: &Vec<char>, i: usize) -> (r: Result<Vec<Token>, PatternError>)
    requires
        i <= p@.len(),
    ensures
        r matches Ok(ts) ==> compile_spec(p@.skip(i as int)) == Some(tokens_model(ts@)),
        r is Err <==> compile_spec(p@.skip(i as int)) is None,
    decreases p@.len() - i,
{
    let ghost rest = p@.skip(i as int);
    if i == p.len() {
        assert(rest =~= Seq::<char>::empty());
        let ts: Vec<Token> = Vec::new();
        assert(tokens_model(ts@) =~= Seq::<TokenModel>::empty());
        return Ok(ts);
    }
    proof {
        assert(rest[0] == p@[i as int]);
        assert(rest.drop_first() =~= p@.skip(i + 1));
    }
    let c = p[i];
    if c == '*' || c == '?' {
        match compile_at(p, i + 1) {
            Ok(mut ts) => {
                let ghost tail = ts@;
                let token = if c == '*' {
                    Token::Many
                } else {
                    Token::One
                };
                ts.insert(0, token);
                proof {
                    lemma_tokens_model_prepend(token, tail);
                }
                Ok(ts)
            },
            Err(e) => Err(e),
        }
    } else if c == '[' {
        let negated = i + 1 < p.len() && p[i + 1] == '!';
        let body_start = if negated {
            i + 2
        } else {
            i + 1
        };
        proof {
            if negated {
                assert(rest[1] == p@[i + 1]);
                assert(rest.skip(2) =~= p@.skip(i + 2));
            } else if i + 1 < p@.len() {
                assert(rest[1] == p@[i + 1]);
            }
            assert(rest.drop_first() =~= p@.skip(i + 1));
        }
        match parse_class_at(p, body_start) {
            Ok((ranges, after)) => {
                if ranges.len() == 0 {
                    return Err(PatternError);
                }
                match compile_at(p, after) {
                    Ok(mut ts) => {
                        let ghost tail = ts@;
                        let token = Token::Class { negated, ranges };
                        let ghost token_model = token@;
                        ts.insert(0, token);
                        proof {
                            lemma_tokens_model_prepend(token, tail);
                        }
                        Ok(ts)
                    },
                    Err(e) => Err(e),
                }
            },
            Err(e) => Err(e),
        }
    } else {
        match compile_at(p, i + 1) {
            Ok(mut ts) => {
                let ghost tail = ts@;
                let token = Token::Lit(c);
                ts.insert(0, token);
                proof {
                    lemma_tokens_model_prepend(token, tail);
                }
                Ok(ts)
            },
            Err(e) => Err(e),
        }
    }
}

impl Pattern {
    /// Compile a glob pattern; an unclosed or empty character class is
    /// refused.
    pub fn new(pattern: &str) -> (r: Result<Pattern, PatternError>)
        ensures
            r matches Ok(g) ==> compile_spec(pattern@) == Some(g@),
            r is Err <==> compile_spec(pattern@) is None,
    {
        let chars = chars_of(pattern);
        proof {
            assert(chars@.skip(0) =~= pattern@);
        }
        match compile_at(&chars, 0) {
            Ok(ts) => Ok(Pattern { tokens: ts }),
            Err(e) => Err(e),
        }
    }

    /// Anchored matching against a character vector.
    pub fn matches_chars(&self, s: &Vec<char>) -> (r: bool)
        ensures
            r == glob_match(self@, s@),
    {
        proof {
            assert(tokens_model(self.tokens@).skip(0) =~= self@);
            assert(s@.skip(0) =~= s@);
        }
        match_at(&self.tokens, s, 0, 0)
    }

    /// Anchored matching against a string slice.
    pub fn matches(&self, s: &str) -> (r: bool)
        ensures
            r == glob_match(self@, s@),
    {
        let v = chars_of(s);
        self.matches_chars(&v)
    }
}

/// The glob `*` matches the empty string; the glob `?` does not.
pub proof fn lemma_star_matches_empty_question_does_not()
    ensures
        compile_spec("*"@) == Some(seq![TokenModel::Many]),
        compile_spec("?"@) == Some(seq![TokenModel::One]),
        glob_match(seq![TokenModel::Many], Seq::<char>::empty()),
        !glob_match(seq![TokenModel::One], Seq::<char>::empty()),
{
    reveal_strlit("*");
    reveal_strlit("?");
    assert(compile_spec(Seq::<char>::empty()) == Some(Seq::<TokenModel>::empty()));
    assert("*"@.drop_first() =~= Seq::<char>::empty());
    assert("?"@.drop_first() =~= Seq::<char>::empty());
    assert(seq![TokenModel::Many] + Seq::<TokenModel>::empty() =~= seq![TokenModel::Many]);
    assert(seq![TokenModel::One] + Seq::<TokenModel>::empty() =~= seq![TokenModel::One]);
    assert(seq![TokenModel::Many].drop_first() =~= Seq::<TokenModel>::empty());
    assert(glob_match(Seq::<TokenModel>::empty(), Seq::<char>::empty()));
}

} // verus!
