use vstd::prelude::*;
use vstd::string::{StrSliceExecFns, StringExecFns};

use crate::error::{lit, Error};
use crate::strategy::{SyncInputNames, SyncServiceImpl};

verus! {

/// The text of a flake definition, transformed value to value, never
/// mutated in place.
#[derive(Debug, PartialEq, Eq)]
pub struct FlakeNix {
    as_string: String,
}

impl View for FlakeNix {
    type V = Seq<char>;

    closed spec fn view(&self) -> Seq<char> {
        self.as_string@
    }
}

impl FlakeNix {
    /// Wraps definition text.
    pub fn new(content: String) -> (r: Self)
        ensures
            r@ == content@,
    {
        Self { as_string: content }
    }

    /// The definition text.
    pub fn as_string(&self) -> (r: String)
        ensures
            r@ == self@,
    {
        self.as_string.clone()
    }
}

/// The character at `i` may stand inside a plain string literal: no quote,
/// no backslash, and no interpolation opener starting here.
pub open spec fn literal_char_ok(text: Seq<char>, i: int) -> bool {
    &&& text[i] != '"'
    &&& text[i] != '\\'
    &&& !(text[i] == '$' && i + 1 < text.len() && text[i + 1] == '{')
}

/// A span of text free of the characters that end or escape a plain string
/// literal.
pub open spec fn no_specials(text: Seq<char>, lo: int, hi: int) -> bool {
    forall|i: int| lo <= i < hi ==> #[trigger] literal_char_ok(text, i)
}

/// Text that may stand verbatim as the content of a plain string literal.
pub open spec fn plain_url(s: Seq<char>) -> bool {
    forall|i: int| 0 <= i < s.len() ==> #[trigger] literal_char_ok(s, i)
}

/// The span `[lo, hi)` of `text` holds a plain, non-interpolated string
/// literal: quotes at both ends and nothing special between them.
pub open spec fn plain_literal_span(text: Seq<char>, lo: int, hi: int) -> bool {
    &&& 0 <= lo
    &&& lo + 2 <= hi <= text.len()
    &&& text[lo] == '"'
    &&& text[hi - 1] == '"'
    &&& no_specials(text, lo + 1, hi - 1)
}

/// What one token of the definition text is.
#[derive(Clone, Copy, Debug, PartialEq, Eq, Structural)]
pub enum TokKind {
    LBrace,
    RBrace,
    LParen,
    RParen,
    LBrack,
    RBrack,
    Semi,
    Dot,
    Eq,
    Ident,
    /// A `"`-delimited string; `plain` when it holds no escape and no
    /// interpolation.
    Str { plain: bool },
    /// A `''`-delimited string.
    IndStr,
    /// Whitespace or a comment.
    Trivia,
    Other,
}

/// One token: its kind and its character span in the text.
#[derive(Clone, Copy, Debug, PartialEq, Eq, Structural)]
pub struct Tok {
    pub kind: TokKind,
    pub lo: usize,
    pub hi: usize,
}

/// Whether a character is whitespace of the definition grammar.
pub open spec fn space_char(c: char) -> bool {
    c == ' ' || c == '\t' || c == '\n' || c == '\r'
}

/// Whether a character may open an identifier.
pub open spec fn ident_start_char(c: char) -> bool {
    ('a' <= c && c <= 'z') || ('A' <= c && c <= 'Z') || c == '_'
}

/// Whether a character may continue an identifier.
pub open spec fn ident_char(c: char) -> bool {
    ident_start_char(c) || ('0' <= c && c <= '9') || c == '-' || c == '\''
}

/// A token is sound for the text it was read from: its span is in bounds,
/// its kind agrees with the character it starts on, punctuation is one
/// character wide, an identifier is a maximal run of identifier characters,
/// and a string token carries its delimiters.
#[verifier::opaque]
pub open spec fn tok_wf(t: Tok, text: Seq<char>) -> bool {
    &&& t.lo < t.hi <= text.len()
    &&& (t.kind matches TokKind::Str { plain } ==> {
        &&& t.lo + 2 <= t.hi
        &&& text[t.lo as int] == '"'
        &&& text[t.hi - 1] == '"'
        &&& (plain ==> no_specials(text, t.lo + 1, t.hi - 1))
    })
    &&& (text[t.lo as int] == '{' ==> t.kind is LBrace && t.hi == t.lo + 1)
    &&& (text[t.lo as int] == '}' ==> t.kind is RBrace && t.hi == t.lo + 1)
    &&& (text[t.lo as int] == '(' ==> t.kind is LParen && t.hi == t.lo + 1)
    &&& (text[t.lo as int] == ')' ==> t.kind is RParen && t.hi == t.lo + 1)
    &&& (text[t.lo as int] == '[' ==> t.kind is LBrack && t.hi == t.lo + 1)
    &&& (text[t.lo as int] == ']' ==> t.kind is RBrack && t.hi == t.lo + 1)
    &&& (text[t.lo as int] == ';' ==> t.kind is Semi && t.hi == t.lo + 1)
    &&& (text[t.lo as int] == '.' ==> t.kind is Dot && t.hi == t.lo + 1)
    &&& (text[t.lo as int] == '=' ==> t.kind is Eq && t.hi == t.lo + 1)
    &&& (text[t.lo as int] == '"' ==> t.kind matches TokKind::Str { .. })
    &&& (space_char(text[t.lo as int]) ==> t.kind is Trivia)
    &&& (text[t.lo as int] == '#' ==> t.kind is Trivia)
    &&& (ident_start_char(text[t.lo as int]) ==> {
        &&& t.kind is Ident
        &&& (forall|m: int| t.lo < m < t.hi ==> ident_char(#[trigger] text[m]))
        &&& (t.hi < text.len() ==> !ident_char(text[t.hi as int]))
    })
}

/// A token list losslessly partitions the text: spans are consecutive,
/// begin at the first character and end at the last, and each token is
/// sound.
pub open spec fn toks_wf(toks: Seq<Tok>, text: Seq<char>) -> bool {
    &&& forall|i: int| 0 <= i < toks.len() ==> tok_wf(#[trigger] toks[i], text)
    &&& forall|i: int| 0 <= i < toks.len() - 1 ==> (#[trigger] toks[i]).hi == toks[i + 1].lo
    &&& (toks.len() > 0 ==> toks[0].lo == 0 && toks.last().hi == text.len())
    &&& (toks.len() == 0 ==> text.len() == 0)
}

/// The characters of a piece of text, one by one.
fn str_to_chars(s: &str) -> (r: Vec<char>)
    ensures
        r@ == s@,
{
    let n = s.unicode_len();
    let mut r: Vec<char> = Vec::new();
    let mut i: usize = 0;
    while i < n
        invariant
            i <= n,
            n == s@.len(),
            r@.len() == i,
            forall|j: int| 0 <= j < i ==> r@[j] == s@[j],
        decreases n - i,
    {
        r.push(s.get_char(i));
        i = i + 1;
    }
    proof {
        assert(r@ =~= s@);
    }
    r
}

/// What surrounds the scanner inside a string region.
#[derive(Clone, Copy, Debug, PartialEq, Eq, Structural)]
pub enum Frame {
    DQuote,
    IndString,
    Brace,
}

/// The first position at or after `q` that is no whitespace, capped at the
/// end of the text.
#[verifier::opaque]
pub open spec fn space_run_end(text: Seq<char>, q: int) -> int
    decreases text.len() - q when 0 <= q <= text.len()
{
    if q < text.len() && space_char(text[q]) {
        space_run_end(text, q + 1)
    } else {
        q
    }
}

/// The first position at or after `q` that holds a line break, or the end
/// of the text.
#[verifier::opaque]
pub open spec fn line_end(text: Seq<char>, q: int) -> int
    decreases text.len() - q when 0 <= q <= text.len()
{
    if q < text.len() && text[q] != '\n' {
        line_end(text, q + 1)
    } else {
        q
    }
}

/// The position after the `*/` that closes a block comment scanned from
/// `q`, or nothing where the comment never closes.
#[verifier::opaque]
pub open spec fn block_comment_end(text: Seq<char>, q: int) -> Option<int>
    decreases text.len() - q when 0 <= q <= text.len()
{
    if q >= text.len() {
        None
    } else if text[q] == '*' && q + 1 < text.len() && text[q + 1] == '/' {
        Some(q + 2)
    } else {
        block_comment_end(text, q + 1)
    }
}

/// The first position at or after `q` that cannot continue an identifier,
/// capped at the end of the text.
#[verifier::opaque]
pub open spec fn ident_run_end(text: Seq<char>, q: int) -> int
    decreases text.len() - q when 0 <= q <= text.len()
{
    if q < text.len() && ident_char(text[q]) {
        ident_run_end(text, q + 1)
    } else {
        q
    }
}

/// The run scanners stay within the text and never move backwards.
pub proof fn lemma_run_bounds(text: Seq<char>, q: int)
    requires
        0 <= q <= text.len(),
    ensures
        q <= space_run_end(text, q) <= text.len(),
        q <= line_end(text, q) <= text.len(),
        q <= ident_run_end(text, q) <= text.len(),
        block_comment_end(text, q) matches Some(e) ==> q < e <= text.len(),
    decreases text.len() - q,
{
    reveal_with_fuel(space_run_end, 1);
    reveal_with_fuel(line_end, 1);
    reveal_with_fuel(ident_run_end, 1);
    reveal_with_fuel(block_comment_end, 1);
    if q < text.len() {
        lemma_run_bounds(text, q + 1);
    }
}

/// One position of the string-region scanner: `stack` is what still
/// surrounds it, innermost last; `plain` records whether the outer `"`
/// string has so far held only plain characters. Yields the position one
/// past the region's closing delimiter and the final plainness, or nothing
/// where the region never closes.
#[verifier::opaque]
pub open spec fn scan_region_spec(
    text: Seq<char>,
    p: int,
    stack: Seq<Frame>,
    plain: bool,
) -> Option<(int, bool)>
    decreases text.len() - p when 0 <= p <= text.len() && stack.len() > 0
    via scan_region_spec_decreases
{
    if p >= text.len() {
        None
    } else {
        let c = text[p];
        match stack.last() {
            Frame::DQuote => {
                if c == '\\' {
                    if p + 1 >= text.len() {
                        None
                    } else {
                        scan_region_spec(text, p + 2, stack, false)
                    }
                } else if c == '"' {
                    if stack.len() == 1 {
                        Some((p + 1, plain))
                    } else {
                        scan_region_spec(text, p + 1, stack.drop_last(), false)
                    }
                } else if c == '$' && p + 1 < text.len() && text[p + 1] == '{' {
                    scan_region_spec(text, p + 2, stack.push(Frame::Brace), false)
                } else {
                    scan_region_spec(text, p + 1, stack, plain)
                }
            }
            Frame::IndString => {
                if c == '\'' && p + 1 < text.len() && text[p + 1] == '\'' {
                    if p + 2 < text.len() && (text[p + 2] == '\'' || text[p + 2] == '$') {
                        scan_region_spec(text, p + 3, stack, plain)
                    } else {
                        if stack.len() == 1 {
                            Some((p + 2, false))
                        } else {
                            scan_region_spec(text, p + 2, stack.drop_last(), plain)
                        }
                    }
                } else if c == '$' && p + 1 < text.len() && text[p + 1] == '{' {
                    scan_region_spec(text, p + 2, stack.push(Frame::Brace), plain)
                } else {
                    scan_region_spec(text, p + 1, stack, plain)
                }
            }
            Frame::Brace => {
                if c == '}' {
                    if stack.len() == 1 {
                        None
                    } else {
                        scan_region_spec(text, p + 1, stack.drop_last(), plain)
                    }
                } else if c == '{' {
                    scan_region_spec(text, p + 1, stack.push(Frame::Brace), plain)
                } else if c == '"' {
                    scan_region_spec(text, p + 1, stack.push(Frame::DQuote), plain)
                } else if c == '\'' && p + 1 < text.len() && text[p + 1] == '\'' {
                    scan_region_spec(text, p + 2, stack.push(Frame::IndString), plain)
                } else if c == '#' {
                    scan_region_spec(text, line_end(text, p + 1), stack, plain)
                } else if c == '/' && p + 1 < text.len() && text[p + 1] == '*' {
                    match block_comment_end(text, p + 2) {
                        None => None,
                        Some(e) => scan_region_spec(text, e, stack, plain),
                    }
                } else {
                    scan_region_spec(text, p + 1, stack, plain)
                }
            }
        }
    }
}

#[via_fn]
proof fn scan_region_spec_decreases(text: Seq<char>, p: int, stack: Seq<Frame>, plain: bool) {
    if p < text.len() {
        lemma_run_bounds(text, p + 1);
        if p + 2 <= text.len() {
            lemma_run_bounds(text, p + 2);
        }
    }
}

/// A closed string region ends strictly after the scanner's position,
/// within the text.
pub proof fn lemma_scan_region_bounds(text: Seq<char>, p: int, stack: Seq<Frame>, plain: bool)
    requires
        0 <= p <= text.len(),
        stack.len() > 0,
    ensures
        scan_region_spec(text, p, stack, plain) matches Some(r) ==> p < r.0 <= text.len(),
    decreases text.len() - p,
{
    reveal_with_fuel(scan_region_spec, 1);
    if p < text.len() {
        let c = text[p];
        match stack.last() {
            Frame::DQuote => {
                if c == '\\' {
                    if p + 1 < text.len() {
                        lemma_scan_region_bounds(text, p + 2, stack, false);
                    }
                } else if c == '"' {
                    if stack.len() > 1 {
                        lemma_scan_region_bounds(text, p + 1, stack.drop_last(), false);
                    }
                } else if c == '$' && p + 1 < text.len() && text[p + 1] == '{' {
                    lemma_scan_region_bounds(text, p + 2, stack.push(Frame::Brace), false);
                } else {
                    lemma_scan_region_bounds(text, p + 1, stack, plain);
                }
            }
            Frame::IndString => {
                if c == '\'' && p + 1 < text.len() && text[p + 1] == '\'' {
                    if p + 2 < text.len() && (text[p + 2] == '\'' || text[p + 2] == '$') {
                        lemma_scan_region_bounds(text, p + 3, stack, plain);
                    } else {
                        if stack.len() > 1 {
                            lemma_scan_region_bounds(text, p + 2, stack.drop_last(), plain);
                        }
                    }
                } else if c == '$' && p + 1 < text.len() && text[p + 1] == '{' {
                    lemma_scan_region_bounds(text, p + 2, stack.push(Frame::Brace), plain);
                } else {
                    lemma_scan_region_bounds(text, p + 1, stack, plain);
                }
            }
            Frame::Brace => {
                if c == '}' {
                    if stack.len() > 1 {
                        lemma_scan_region_bounds(text, p + 1, stack.drop_last(), plain);
                    }
                } else if c == '{' {
                    lemma_scan_region_bounds(text, p + 1, stack.push(Frame::Brace), plain);
                } else if c == '"' {
                    lemma_scan_region_bounds(text, p + 1, stack.push(Frame::DQuote), plain);
                } else if c == '\'' && p + 1 < text.len() && text[p + 1] == '\'' {
                    lemma_scan_region_bounds(text, p + 2, stack.push(Frame::IndString), plain);
                } else if c == '#' {
                    lemma_run_bounds(text, p + 1);
                    lemma_scan_region_bounds(text, line_end(text, p + 1), stack, plain);
                } else if c == '/' && p + 1 < text.len() && text[p + 1] == '*' {
                    lemma_run_bounds(text, p + 2);
                    match block_comment_end(text, p + 2) {
                        None => {}
                        Some(e) => {
                            lemma_scan_region_bounds(text, e, stack, plain);
                        }
                    }
                } else {
                    lemma_scan_region_bounds(text, p + 1, stack, plain);
                }
            }
        }
    }
}

/// The token that starts at position `p` of the text, or nothing where the
/// region starting there never closes. This is the tokenizer, one token at
/// a time, as a mathematical function of the text.
#[verifier::opaque]
pub open spec fn next_token(text: Seq<char>, p: int) -> Option<Tok> {
    let c = text[p];
    if c == '{' {
        Some(Tok { kind: TokKind::LBrace, lo: p as usize, hi: (p + 1) as usize })
    } else if c == '}' {
        Some(Tok { kind: TokKind::RBrace, lo: p as usize, hi: (p + 1) as usize })
    } else if c == '(' {
        Some(Tok { kind: TokKind::LParen, lo: p as usize, hi: (p + 1) as usize })
    } else if c == ')' {
        Some(Tok { kind: TokKind::RParen, lo: p as usize, hi: (p + 1) as usize })
    } else if c == '[' {
        Some(Tok { kind: TokKind::LBrack, lo: p as usize, hi: (p + 1) as usize })
    } else if c == ']' {
        Some(Tok { kind: TokKind::RBrack, lo: p as usize, hi: (p + 1) as usize })
    } else if c == ';' {
        Some(Tok { kind: TokKind::Semi, lo: p as usize, hi: (p + 1) as usize })
    } else if c == '.' {
        Some(Tok { kind: TokKind::Dot, lo: p as usize, hi: (p + 1) as usize })
    } else if c == '=' {
        Some(Tok { kind: TokKind::Eq, lo: p as usize, hi: (p + 1) as usize })
    } else if space_char(c) {
        Some(Tok { kind: TokKind::Trivia, lo: p as usize, hi: space_run_end(text, p + 1) as usize })
    } else if c == '#' {
        Some(Tok { kind: TokKind::Trivia, lo: p as usize, hi: line_end(text, p + 1) as usize })
    } else if c == '/' && p + 1 < text.len() && text[p + 1] == '*' {
        match block_comment_end(text, p + 2) {
            None => None,
            Some(e) => Some(Tok { kind: TokKind::Trivia, lo: p as usize, hi: e as usize }),
        }
    } else if c == '"' {
        match scan_region_spec(text, p + 1, seq![Frame::DQuote], true) {
            None => None,
            Some(r) => Some(
                Tok { kind: TokKind::Str { plain: r.1 }, lo: p as usize, hi: r.0 as usize },
            ),
        }
    } else if c == '\'' && p + 1 < text.len() && text[p + 1] == '\'' {
        match scan_region_spec(text, p + 2, seq![Frame::IndString], false) {
            None => None,
            Some(r) => Some(Tok { kind: TokKind::IndStr, lo: p as usize, hi: r.0 as usize }),
        }
    } else if ident_start_char(c) {
        Some(Tok { kind: TokKind::Ident, lo: p as usize, hi: ident_run_end(text, p + 1) as usize })
    } else {
        Some(Tok { kind: TokKind::Other, lo: p as usize, hi: (p + 1) as usize })
    }
}

/// A scanned token starts where the scan started and ends strictly later,
/// within the text.
pub proof fn lemma_next_token_bounds(text: Seq<char>, p: int)
    requires
        0 <= p < text.len(),
        text.len() <= usize::MAX,
    ensures
        next_token(text, p) matches Some(t) ==> t.lo == p && p < t.hi <= text.len(),
{
    reveal(next_token);
    lemma_run_bounds(text, p + 1);
    if p + 2 <= text.len() {
        lemma_run_bounds(text, p + 2);
    }
    lemma_scan_region_bounds(text, p + 1, seq![Frame::DQuote], true);
    if p + 2 <= text.len() {
        lemma_scan_region_bounds(text, p + 2, seq![Frame::IndString], false);
    }
}

/// The tokenization of the text from position `p` on: the token at each
/// position in turn, or nothing where some region never closes.
#[verifier::opaque]
pub open spec fn tokens_from(text: Seq<char>, p: int) -> Option<Seq<Tok>>
    decreases text.len() - p when 0 <= p <= text.len() && text.len() <= usize::MAX
    via tokens_from_decreases
{
    if p >= text.len() {
        Some(Seq::empty())
    } else {
        match next_token(text, p) {
            None => None,
            Some(t) => match tokens_from(text, t.hi as int) {
                None => None,
                Some(rest) => Some(seq![t] + rest),
            },
        }
    }
}

#[via_fn]
proof fn tokens_from_decreases(text: Seq<char>, p: int) {
    if p < text.len() {
        lemma_next_token_bounds(text, p);
    }
}

/// Prepends already-read tokens to the tokenization of the rest.
pub open spec fn prepend_tokens(front: Seq<Tok>, rest: Option<Seq<Tok>>) -> Option<Seq<Tok>> {
    match rest {
        None => None,
        Some(r) => Some(front + r),
    }
}

/// Scans one string region that begins at `start`: a `"` string when
/// `dquote`, else a `''` string. Escapes and interpolations are followed to
/// their ends, nested strings included, so the region is one whole token.
/// Yields the position one past the closing delimiter, and for a `"` string
/// whether its content is plain.
#[verifier::rlimit(100)]
#[verifier::spinoff_prover]
fn scan_region(chars: &Vec<char>, start: usize, dquote: bool) -> (r: Result<(usize, bool), Error>)
    requires
        dquote ==> start < chars@.len() && chars@[start as int] == '"',
        !dquote ==> start + 1 < chars@.len() && chars@[start as int] == '\'' && chars@[start + 1]
            == '\'',
    ensures
        ({
            let spec_r = if dquote {
                scan_region_spec(chars@, start + 1, seq![Frame::DQuote], true)
            } else {
                scan_region_spec(chars@, start + 2, seq![Frame::IndString], false)
            };
            match r {
                Ok((end, plain)) => {
                    &&& start + 2 <= end <= chars@.len()
                    &&& (dquote ==> chars@[end - 1] == '"')
                    &&& (plain ==> dquote && no_specials(chars@, start + 1, end - 1))
                    &&& spec_r == Some((end as int, plain))
                },
                Err(e) => e matches Error::NixParserError(_) && spec_r is None,
            }
        }),
{
    let n = chars.len();
    let mut stack: Vec<Frame> = Vec::new();
    let mut p: usize;
    let mut plain: bool;
    let ghost init_p: int = if dquote {
        start + 1
    } else {
        start + 2
    };
    let ghost init_stack: Seq<Frame> = seq![
        if dquote {
            Frame::DQuote
        } else {
            Frame::IndString
        },
    ];
    if dquote {
        stack.push(Frame::DQuote);
        p = start + 1;
        plain = true;
    } else {
        stack.push(Frame::IndString);
        p = start + 2;
        plain = false;
    }
    proof {
        assert(stack@ =~= init_stack);
    }
    loop
        invariant
            n == chars@.len(),
            start < p <= n,
            stack@.len() > 0,
            stack@[0] == (if dquote {
                Frame::DQuote
            } else {
                Frame::IndString
            }),
            plain ==> (dquote && stack@.len() == 1 && stack@[0] == Frame::DQuote && no_specials(
                chars@,
                start + 1,
                p as int,
            )),
            scan_region_spec(chars@, init_p, init_stack, dquote) == scan_region_spec(
                chars@,
                p as int,
                stack@,
                plain,
            ),
            init_p == (if dquote {
                start + 1
            } else {
                start + 2
            }),
            init_stack =~= seq![
                if dquote {
                    Frame::DQuote
                } else {
                    Frame::IndString
                },
            ],
        decreases n - p,
    {
        proof {
            reveal_with_fuel(scan_region_spec, 1);
        }
        if p >= n {
            return Err(Error::NixParserError(lit("unterminated string")));
        }
        let c = chars[p];
        let top = stack[stack.len() - 1];
        match top {
            Frame::DQuote => {
                if c == '\\' {
                    plain = false;
                    if p + 1 >= n {
                        return Err(Error::NixParserError(lit("unterminated string")));
                    }
                    p = p + 2;
                } else if c == '"' {
                    let ghost stack0 = stack@;
                    let _ = stack.pop();
                    proof {
                        assert(stack@ =~= stack0.drop_last());
                    }
                    if stack.len() == 0 {
                        return Ok((p + 1, plain));
                    }
                    plain = false;
                    p = p + 1;
                } else if c == '$' && p + 1 < n && chars[p + 1] == '{' {
                    plain = false;
                    stack.push(Frame::Brace);
                    p = p + 2;
                } else {
                    proof {
                        if plain {
                            assert(literal_char_ok(chars@, p as int));
                            assert(no_specials(chars@, start + 1, p + 1));
                        }
                    }
                    p = p + 1;
                }
            }
            Frame::IndString => {
                if c == '\'' && p + 1 < n && chars[p + 1] == '\'' {
                    if p + 2 < n && (chars[p + 2] == '\'' || chars[p + 2] == '$') {
                        p = p + 3;
                    } else {
                        let ghost stack0 = stack@;
                        let _ = stack.pop();
                        proof {
                            assert(stack@ =~= stack0.drop_last());
                        }
                        if stack.len() == 0 {
                            return Ok((p + 2, false));
                        }
                        p = p + 2;
                    }
                } else if c == '$' && p + 1 < n && chars[p + 1] == '{' {
                    stack.push(Frame::Brace);
                    p = p + 2;
                } else {
                    p = p + 1;
                }
            }
            Frame::Brace => {
                if c == '}' {
                    let ghost stack0 = stack@;
                    proof {
                        assert(stack@.len() >= 2);
                    }
                    let _ = stack.pop();
                    proof {
                        assert(stack@ =~= stack0.drop_last());
                    }
                    p = p + 1;
                } else if c == '{' {
                    stack.push(Frame::Brace);
                    p = p + 1;
                } else if c == '"' {
                    stack.push(Frame::DQuote);
                    p = p + 1;
                } else if c == '\'' && p + 1 < n && chars[p + 1] == '\'' {
                    stack.push(Frame::IndString);
                    p = p + 2;
                } else if c == '#' {
                    let mut q = p + 1;
                    while q < n && chars[q] != '\n'
                        invariant
                            p < q <= n,
                            n == chars@.len(),
                            line_end(chars@, p as int + 1) == line_end(chars@, q as int),
                        decreases n - q,
                    {
                        proof {
                            reveal_with_fuel(line_end, 1);
                        }
                        q = q + 1;
                    }
                    proof {
                        reveal_with_fuel(line_end, 1);
                        assert(line_end(chars@, p as int + 1) == q as int);
                    }
                    p = q;
                } else if c == '/' && p + 1 < n && chars[p + 1] == '*' {
                    let mut q = p + 2;
                    while q < n && !(chars[q] == '*' && q + 1 < n && chars[q + 1] == '/')
                        invariant
                            p < q <= n,
                            n == chars@.len(),
                            block_comment_end(chars@, p as int + 2) == block_comment_end(
                                chars@,
                                q as int,
                            ),
                        decreases n - q,
                    {
                        proof {
                            reveal_with_fuel(block_comment_end, 1);
                        }
                        q = q + 1;
                    }
                    proof {
                        reveal_with_fuel(block_comment_end, 1);
                        reveal_with_fuel(scan_region_spec, 1);
                    }
                    if q >= n {
                        return Err(Error::NixParserError(lit("unterminated comment")));
                    }
                    p = q + 2;
                } else {
                    p = p + 1;
                }
            }
        }
    }
}

/// Whether a character is whitespace of the definition grammar.
fn is_space(c: char) -> (r: bool)
    ensures
        r == space_char(c),
{
    c == ' ' || c == '\t' || c == '\n' || c == '\r'
}

/// Whether a character may open an identifier.
fn is_ident_start(c: char) -> (r: bool)
    ensures
        r == ident_start_char(c),
{
    (c >= 'a' && c <= 'z') || (c >= 'A' && c <= 'Z') || c == '_'
}

/// Whether a character may continue an identifier.
fn is_ident_char(c: char) -> (r: bool)
    ensures
        r == ident_char(c),
{
    (c >= 'a' && c <= 'z') || (c >= 'A' && c <= 'Z') || (c >= '0' && c <= '9') || c == '_' || c
        == '-' || c == '\''
}

/// Whether the character at `q` may continue an identifier.
fn ident_char_at(chars: &Vec<char>, q: usize) -> (r: bool)
    requires
        q < chars@.len(),
    ensures
        r == ident_char(chars@[q as int]),
{
    is_ident_char(chars[q])
}

/// Splits definition text into a lossless token list: every character
/// belongs to exactly one token, and string regions are single tokens with
/// their escapes and interpolations followed to the end.
#[verifier::rlimit(100)]
#[verifier::spinoff_prover]
fn tokenize(chars: &Vec<char>) -> (r: Result<Vec<Tok>, Error>)
    ensures
        match r {
            Ok(toks) => toks_wf(toks@, chars@) && tokens_from(chars@, 0) == Some(toks@),
            Err(e) => e matches Error::NixParserError(_) && tokens_from(chars@, 0) is None,
        },
{
    let n = chars.len();
    let mut toks: Vec<Tok> = Vec::new();
    let mut p: usize = 0;
    proof {
        reveal_with_fuel(tokens_from, 1);
        match tokens_from(chars@, 0) {
            Some(x) => {
                assert(Seq::<Tok>::empty() + x =~= x);
            }
            None => {}
        }
    }
    while p < n
        invariant
            n == chars@.len(),
            p <= n,
            forall|i: int| 0 <= i < toks@.len() ==> tok_wf(#[trigger] toks@[i], chars@),
            forall|i: int| 0 <= i < toks@.len() - 1 ==> (#[trigger] toks@[i]).hi == toks@[i + 1].lo,
            toks@.len() > 0 ==> toks@[0].lo == 0 && toks@.last().hi == p,
            toks@.len() == 0 ==> p == 0,
            tokens_from(chars@, 0) == prepend_tokens(toks@, tokens_from(chars@, p as int)),
        decreases n - p,
    {
        let c = chars[p];
        let tok: Tok;
        if c == '{' {
            tok = Tok { kind: TokKind::LBrace, lo: p, hi: p + 1 };
        } else if c == '}' {
            tok = Tok { kind: TokKind::RBrace, lo: p, hi: p + 1 };
        } else if c == '(' {
            tok = Tok { kind: TokKind::LParen, lo: p, hi: p + 1 };
        } else if c == ')' {
            tok = Tok { kind: TokKind::RParen, lo: p, hi: p + 1 };
        } else if c == '[' {
            tok = Tok { kind: TokKind::LBrack, lo: p, hi: p + 1 };
        } else if c == ']' {
            tok = Tok { kind: TokKind::RBrack, lo: p, hi: p + 1 };
        } else if c == ';' {
            tok = Tok { kind: TokKind::Semi, lo: p, hi: p + 1 };
        } else if c == '.' {
            tok = Tok { kind: TokKind::Dot, lo: p, hi: p + 1 };
        } else if c == '=' {
            tok = Tok { kind: TokKind::Eq, lo: p, hi: p + 1 };
        } else if is_space(c) {
            let mut q = p + 1;
            while q < n && (chars[q] == ' ' || chars[q] == '\t' || chars[q] == '\n' || chars[q]
                == '\r')
                invariant
                    p < q <= n,
                    n == chars@.len(),
                    space_run_end(chars@, p as int + 1) == space_run_end(chars@, q as int),
                decreases n - q,
            {
                proof {
                    reveal_with_fuel(space_run_end, 1);
                }
                q = q + 1;
            }
            proof {
                reveal_with_fuel(space_run_end, 1);
                assert(space_run_end(chars@, p as int + 1) == q as int);
            }
            tok = Tok { kind: TokKind::Trivia, lo: p, hi: q };
        } else if c == '#' {
            let mut q = p + 1;
            while q < n && chars[q] != '\n'
                invariant
                    p < q <= n,
                    n == chars@.len(),
                    line_end(chars@, p as int + 1) == line_end(chars@, q as int),
                decreases n - q,
            {
                proof {
                    reveal_with_fuel(line_end, 1);
                }
                q = q + 1;
            }
            proof {
                reveal_with_fuel(line_end, 1);
                assert(line_end(chars@, p as int + 1) == q as int);
            }
            tok = Tok { kind: TokKind::Trivia, lo: p, hi: q };
        } else if c == '/' && p + 1 < n && chars[p + 1] == '*' {
            let mut q = p + 2;
            while q < n && !(chars[q] == '*' && q + 1 < n && chars[q + 1] == '/')
                invariant
                    p < q <= n,
                    n == chars@.len(),
                    block_comment_end(chars@, p as int + 2) == block_comment_end(
                        chars@,
                        q as int,
                    ),
                decreases n - q,
            {
                proof {
                    reveal_with_fuel(block_comment_end, 1);
                }
                q = q + 1;
            }
            proof {
                reveal_with_fuel(block_comment_end, 1);
                reveal(next_token);
                reveal_with_fuel(tokens_from, 1);
            }
            if q >= n {
                return Err(Error::NixParserError(lit("unterminated comment")));
            }
            tok = Tok { kind: TokKind::Trivia, lo: p, hi: q + 2 };
        } else if c == '"' {
            let (end, plain) = match scan_region(chars, p, true) {
                Ok(x) => x,
                Err(e) => {
                    proof {
                        reveal(next_token);
                        reveal_with_fuel(tokens_from, 1);
                    }
                    return Err(e);
                }
            };
            tok = Tok { kind: TokKind::Str { plain }, lo: p, hi: end };
        } else if c == '\'' && p + 1 < n && chars[p + 1] == '\'' {
            let (end, _) = match scan_region(chars, p, false) {
                Ok(x) => x,
                Err(e) => {
                    proof {
                        reveal(next_token);
                        reveal_with_fuel(tokens_from, 1);
                    }
                    return Err(e);
                }
            };
            tok = Tok { kind: TokKind::IndStr, lo: p, hi: end };
        } else if is_ident_start(c) {
            let mut q = p + 1;
            while q < n && ident_char_at(chars, q)
                invariant
                    p < q <= n,
                    n == chars@.len(),
                    forall|m: int| p < m < q ==> ident_char(#[trigger] chars@[m]),
                    ident_run_end(chars@, p as int + 1) == ident_run_end(chars@, q as int),
                decreases n - q,
            {
                proof {
                    reveal_with_fuel(ident_run_end, 1);
                }
                q = q + 1;
            }
            proof {
                reveal_with_fuel(ident_run_end, 1);
                assert(ident_run_end(chars@, p as int + 1) == q as int);
            }
            tok = Tok { kind: TokKind::Ident, lo: p, hi: q };
        } else {
            tok = Tok { kind: TokKind::Other, lo: p, hi: p + 1 };
        }
        let ghost toks0 = toks@;
        proof {
            reveal(tok_wf);
            assert(tok_wf(tok, chars@));
            reveal(next_token);
            assert(next_token(chars@, p as int) == Some(tok));
            reveal_with_fuel(tokens_from, 1);
            match tokens_from(chars@, tok.hi as int) {
                Some(rest) => {
                    assert(tokens_from(chars@, p as int) == Some(seq![tok] + rest));
                    assert(toks0 + (seq![tok] + rest) =~= toks0.push(tok) + rest);
                }
                None => {
                    assert(tokens_from(chars@, p as int) is None);
                }
            }
        }
        toks.push(tok);
        p = tok.hi;
    }
    proof {
        assert(toks_wf(toks@, chars@));
        reveal_with_fuel(tokens_from, 1);
        assert(tokens_from(chars@, n as int) == Some(Seq::<Tok>::empty()));
        assert(toks@ + Seq::<Tok>::empty() =~= toks@);
    }
    Ok(toks)
}


/// One component of the target attribute path `inputs.<input>.url`.
pub open spec fn path_at(input: Seq<char>, k: int) -> Seq<char> {
    if k == 0 {
        "inputs"@
    } else if k == 1 {
        input
    } else {
        "url"@
    }
}

/// The first non-trivia position at or after `i`.
#[verifier::opaque]
pub open spec fn skip_trivia_spec(toks: Seq<Tok>, i: int) -> int
    decreases toks.len() - i when 0 <= i <= toks.len()
{
    if i < toks.len() && toks[i].kind is Trivia {
        skip_trivia_spec(toks, i + 1)
    } else {
        i
    }
}

/// Skipping trivia never moves backwards and stays within the list.
pub proof fn lemma_skip_trivia_bounds(toks: Seq<Tok>, i: int)
    requires
        0 <= i <= toks.len(),
    ensures
        i <= skip_trivia_spec(toks, i) <= toks.len(),
    decreases toks.len() - i,
{
    reveal_with_fuel(skip_trivia_spec, 1);
    if i < toks.len() && toks[i].kind is Trivia {
        lemma_skip_trivia_bounds(toks, i + 1);
    }
}

/// Where one entry value ends: the position after the semicolon that
/// closes it at bracket depth zero, or nothing where the entry never
/// closes.
#[verifier::opaque]
pub open spec fn skip_value_spec(toks: Seq<Tok>, i: int, depth: int) -> Option<int>
    decreases toks.len() - i when 0 <= i <= toks.len() && depth >= 0
{
    if i >= toks.len() {
        None
    } else {
        match toks[i].kind {
            TokKind::Semi => if depth == 0 {
                Some(i + 1)
            } else {
                skip_value_spec(toks, i + 1, depth)
            },
            TokKind::LBrace | TokKind::LParen | TokKind::LBrack => skip_value_spec(
                toks,
                i + 1,
                depth + 1,
            ),
            TokKind::RBrace | TokKind::RParen | TokKind::RBrack => if depth == 0 {
                None
            } else {
                skip_value_spec(toks, i + 1, depth - 1)
            },
            _ => skip_value_spec(toks, i + 1, depth),
        }
    }
}

/// A skipped value ends strictly later than it begins, within the list.
pub proof fn lemma_skip_value_bounds(toks: Seq<Tok>, i: int, depth: int)
    requires
        0 <= i <= toks.len(),
        depth >= 0,
    ensures
        skip_value_spec(toks, i, depth) matches Some(j) ==> i < j <= toks.len(),
    decreases toks.len() - i,
{
    reveal_with_fuel(skip_value_spec, 1);
    if i < toks.len() {
        match toks[i].kind {
            TokKind::Semi => {
                if depth != 0 {
                    lemma_skip_value_bounds(toks, i + 1, depth);
                }
            }
            TokKind::LBrace | TokKind::LParen | TokKind::LBrack => {
                lemma_skip_value_bounds(toks, i + 1, depth + 1);
            }
            TokKind::RBrace | TokKind::RParen | TokKind::RBrack => {
                if depth != 0 {
                    lemma_skip_value_bounds(toks, i + 1, depth - 1);
                }
            }
            _ => {
                lemma_skip_value_bounds(toks, i + 1, depth);
            }
        }
    }
}

/// What walking a dotted identifier path from `pos` yields, with `matched`
/// components already matched and `all_matched` saying whether every walked
/// identifier matched so far.
#[verifier::opaque]
pub open spec fn walk_path_spec(
    toks: Seq<Tok>,
    text: Seq<char>,
    input: Seq<char>,
    pos: int,
    path_from: int,
    matched: int,
    all_matched: bool,
) -> PathScanSpec
    decreases toks.len() - pos when 0 <= pos < toks.len()
    via walk_path_spec_decreases
{
    let t = toks[pos];
    let hit = all_matched && path_from + matched < 3 && text.subrange(t.lo as int, t.hi as int)
        == path_at(input, path_from + matched);
    let matched2 = if hit {
        matched + 1
    } else {
        matched
    };
    let all2 = hit;
    let after = skip_trivia_spec(toks, pos + 1);
    if after < toks.len() && toks[after].kind is Dot {
        let next = skip_trivia_spec(toks, after + 1);
        if next < toks.len() && toks[next].kind is Ident {
            walk_path_spec(toks, text, input, next, path_from, matched2, all2)
        } else {
            PathScanSpec { cursor: next, matched: matched2, all_matched: all2, malformed: true }
        }
    } else {
        PathScanSpec { cursor: after, matched: matched2, all_matched: all2, malformed: false }
    }
}

#[via_fn]
proof fn walk_path_spec_decreases(
    toks: Seq<Tok>,
    text: Seq<char>,
    input: Seq<char>,
    pos: int,
    path_from: int,
    matched: int,
    all_matched: bool,
) {
    lemma_skip_trivia_bounds(toks, pos + 1);
    let after = skip_trivia_spec(toks, pos + 1);
    if after < toks.len() && toks[after].kind is Dot {
        lemma_skip_trivia_bounds(toks, after + 1);
    }
}

/// The mathematical value of one path walk.
pub struct PathScanSpec {
    pub cursor: int,
    pub matched: int,
    pub all_matched: bool,
    pub malformed: bool,
}

/// A path walk ends strictly after its first identifier, within the list,
/// and never matches more components than the target path has left.
pub proof fn lemma_walk_path_bounds(
    toks: Seq<Tok>,
    text: Seq<char>,
    input: Seq<char>,
    pos: int,
    path_from: int,
    matched: int,
    all_matched: bool,
)
    requires
        0 <= pos < toks.len(),
        0 <= path_from,
        0 <= matched,
        path_from + matched <= 3,
    ensures
        ({
            let r = walk_path_spec(toks, text, input, pos, path_from, matched, all_matched);
            &&& pos < r.cursor <= toks.len()
            &&& matched <= r.matched
            &&& path_from + r.matched <= 3
        }),
    decreases toks.len() - pos,
{
    reveal_with_fuel(walk_path_spec, 1);
    lemma_skip_trivia_bounds(toks, pos + 1);
    let after = skip_trivia_spec(toks, pos + 1);
    let t = toks[pos];
    let hit = all_matched && path_from + matched < 3 && text.subrange(t.lo as int, t.hi as int)
        == path_at(input, path_from + matched);
    let matched2 = if hit {
        matched + 1
    } else {
        matched
    };
    if after < toks.len() && toks[after].kind is Dot {
        lemma_skip_trivia_bounds(toks, after + 1);
        let next = skip_trivia_spec(toks, after + 1);
        if next < toks.len() && toks[next].kind is Ident {
            lemma_walk_path_bounds(toks, text, input, next, path_from, matched2, hit);
        }
    }
}

/// What searching one attribute set yields.
pub enum FindSpec {
    Found(int),
    NotFound,
    NotString,
    Parse,
}

/// The committed search of one attribute set whose opening brace stands
/// just before `i`: the first entry whose identifier path matches the
/// whole remaining target path must carry a plain string literal; the
/// first entry that matches a strict prefix and carries a nested set is
/// entered; every other entry is stepped over.
#[verifier::opaque]
pub open spec fn find_in_set_spec(
    toks: Seq<Tok>,
    text: Seq<char>,
    input: Seq<char>,
    i: int,
    path_from: int,
) -> FindSpec
    decreases toks.len() - i when 0 <= i <= toks.len() && 0 <= path_from <= 2
    via find_in_set_spec_decreases
{
    if i >= toks.len() {
        FindSpec::Parse
    } else {
        match toks[i].kind {
            TokKind::Trivia => find_in_set_spec(toks, text, input, i + 1, path_from),
            TokKind::RBrace => FindSpec::NotFound,
            TokKind::Ident => {
                let scan = walk_path_spec(toks, text, input, i, path_from, 0, true);
                if !scan.malformed && scan.cursor < toks.len() && toks[scan.cursor].kind is Eq {
                    let vstart = skip_trivia_spec(toks, scan.cursor + 1);
                    if vstart >= toks.len() {
                        FindSpec::Parse
                    } else if scan.all_matched && path_from + scan.matched == 3 {
                        if toks[vstart].kind == (TokKind::Str { plain: true }) {
                            FindSpec::Found(vstart)
                        } else {
                            FindSpec::NotString
                        }
                    } else if scan.all_matched && scan.matched >= 1 && toks[vstart].kind is LBrace {
                        find_in_set_spec(toks, text, input, vstart + 1, path_from + scan.matched)
                    } else {
                        match skip_value_spec(toks, vstart, 0) {
                            Some(next) => find_in_set_spec(toks, text, input, next, path_from),
                            None => FindSpec::Parse,
                        }
                    }
                } else {
                    match skip_value_spec(toks, scan.cursor, 0) {
                        Some(next) => find_in_set_spec(toks, text, input, next, path_from),
                        None => FindSpec::Parse,
                    }
                }
            }
            _ => {
                match skip_value_spec(toks, i, 0) {
                    Some(next) => find_in_set_spec(toks, text, input, next, path_from),
                    None => FindSpec::Parse,
                }
            }
        }
    }
}

#[via_fn]
proof fn find_in_set_spec_decreases(
    toks: Seq<Tok>,
    text: Seq<char>,
    input: Seq<char>,
    i: int,
    path_from: int,
) {
    if i < toks.len() {
        match toks[i].kind {
            TokKind::Trivia => {}
            TokKind::RBrace => {}
            TokKind::Ident => {
                lemma_walk_path_bounds(toks, text, input, i, path_from, 0, true);
                let scan = walk_path_spec(toks, text, input, i, path_from, 0, true);
                if !scan.malformed && scan.cursor < toks.len() && toks[scan.cursor].kind is Eq {
                    lemma_skip_trivia_bounds(toks, scan.cursor + 1);
                    let vstart = skip_trivia_spec(toks, scan.cursor + 1);
                    lemma_skip_value_bounds(toks, vstart, 0);
                } else {
                    lemma_skip_value_bounds(toks, scan.cursor, 0);
                }
            }
            _ => {
                lemma_skip_value_bounds(toks, i, 0);
            }
        }
    }
}

/// The committed search of a whole definition text over its tokens: the
/// text must be one attribute set, searched from its first entry.
pub open spec fn find_url_spec(toks: Seq<Tok>, text: Seq<char>, input: Seq<char>) -> FindSpec {
    let s = skip_trivia_spec(toks, 0);
    if s < toks.len() && toks[s].kind is LBrace {
        find_in_set_spec(toks, text, input, s + 1, 0)
    } else {
        FindSpec::Parse
    }
}

/// What one spec-level edit step concludes: the produced text, or the
/// failure kind the step reports.
pub enum EditSpec {
    Edited(Seq<char>),
    PathNotFound,
    NotAStringLiteral,
    ParseError,
}

/// The URL declared for `input` in the text: tokenize, search the committed
/// path, and take the located literal's content verbatim.
#[verifier::opaque]
pub open spec fn extract_spec(text: Seq<char>, input: Seq<char>) -> EditSpec {
    match tokens_from(text, 0) {
        None => EditSpec::ParseError,
        Some(toks) => match find_url_spec(toks, text, input) {
            FindSpec::Found(k) => EditSpec::Edited(text.subrange(toks[k].lo + 1, toks[k].hi - 1)),
            FindSpec::NotFound => EditSpec::PathNotFound,
            FindSpec::NotString => EditSpec::NotAStringLiteral,
            FindSpec::Parse => EditSpec::ParseError,
        },
    }
}

/// The text with the URL declared for `input` replaced by `url`: tokenize,
/// search the committed path, and splice `url` into exactly the located
/// literal's content span.
#[verifier::opaque]
pub open spec fn rewrite_spec(text: Seq<char>, input: Seq<char>, url: Seq<char>) -> EditSpec {
    match tokens_from(text, 0) {
        None => EditSpec::ParseError,
        Some(toks) => match find_url_spec(toks, text, input) {
            FindSpec::Found(k) => EditSpec::Edited(
                text.subrange(0, toks[k].lo + 1) + url + text.subrange(
                    toks[k].hi - 1,
                    text.len() as int,
                ),
            ),
            FindSpec::NotFound => EditSpec::PathNotFound,
            FindSpec::NotString => EditSpec::NotAStringLiteral,
            FindSpec::Parse => EditSpec::ParseError,
        },
    }
}

/// One whole sync of declaration text: the URL extracted at the source name
/// replaces the one declared at the destination name.
#[verifier::opaque]
pub open spec fn sync_spec(src: Seq<char>, dst: Seq<char>, names: crate::strategy::SyncNamesView) -> EditSpec {
    match extract_spec(src, names.source_spec()) {
        EditSpec::Edited(url) => rewrite_spec(dst, names.destination_spec(), url),
        other => other,
    }
}

/// Whether the token at `j` is trivia.
fn trivia_at(toks: &Vec<Tok>, j: usize) -> (r: bool)
    requires
        j < toks@.len(),
    ensures
        r == (toks@[j as int].kind is Trivia),
{
    matches!(toks[j].kind, TokKind::Trivia)
}

/// The first non-trivia position at or after `i`.
fn skip_trivia(toks: &Vec<Tok>, i: usize) -> (r: usize)
    requires
        i <= toks@.len(),
    ensures
        i <= r <= toks@.len(),
        r == skip_trivia_spec(toks@, i as int),
{
    proof {
        reveal_with_fuel(skip_trivia_spec, 1);
    }
    let mut j = i;
    while j < toks.len() && trivia_at(toks, j)
        invariant
            i <= j <= toks@.len(),
            skip_trivia_spec(toks@, i as int) == skip_trivia_spec(toks@, j as int),
        decreases toks@.len() - j,
    {
        proof {
            reveal_with_fuel(skip_trivia_spec, 1);
        }
        j = j + 1;
    }
    proof {
        reveal_with_fuel(skip_trivia_spec, 1);
    }
    j
}

/// Skips one entry value: everything up to and including the semicolon that
/// ends it, brackets of any kind and whole string tokens stepped over.
fn skip_value(toks: &Vec<Tok>, i: usize) -> (r: Result<usize, Error>)
    requires
        i <= toks@.len(),
    ensures
        match r {
            Ok(j) => i < j <= toks@.len() && skip_value_spec(toks@, i as int, 0) == Some(
                j as int,
            ),
            Err(e) => e matches Error::NixParserError(_) && skip_value_spec(toks@, i as int, 0)
                is None,
        },
{
    proof {
        reveal_with_fuel(skip_value_spec, 1);
    }
    let mut j = i;
    let mut depth: usize = 0;
    while j < toks.len()
        invariant
            i <= j <= toks@.len(),
            depth <= j - i,
            skip_value_spec(toks@, i as int, 0) == skip_value_spec(
                toks@,
                j as int,
                depth as int,
            ),
        decreases toks@.len() - j,
    {
        proof {
            reveal_with_fuel(skip_value_spec, 1);
        }
        match toks[j].kind {
            TokKind::Semi => {
                if depth == 0 {
                    return Ok(j + 1);
                }
                j = j + 1;
            }
            TokKind::LBrace | TokKind::LParen | TokKind::LBrack => {
                depth = depth + 1;
                j = j + 1;
            }
            TokKind::RBrace | TokKind::RParen | TokKind::RBrack => {
                if depth == 0 {
                    return Err(Error::NixParserError(lit("binding without a terminator")));
                }
                depth = depth - 1;
                j = j + 1;
            }
            _ => {
                j = j + 1;
            }
        }
    }
    proof {
        reveal_with_fuel(skip_value_spec, 1);
    }
    Err(Error::NixParserError(lit("binding without a terminator")))
}

/// Whether the characters `[lo, hi)` spell exactly the given text.
fn span_matches(chars: &Vec<char>, lo: usize, hi: usize, target: &str) -> (r: bool)
    requires
        lo <= hi <= chars@.len(),
    ensures
        r == (chars@.subrange(lo as int, hi as int) == target@),
{
    let tlen = target.unicode_len();
    if hi - lo != tlen {
        proof {
            assert(chars@.subrange(lo as int, hi as int).len() == hi - lo);
        }
        return false;
    }
    let mut j: usize = 0;
    while j < tlen
        invariant
            j <= tlen,
            tlen == target@.len(),
            lo + tlen == hi,
            hi <= chars@.len(),
            forall|x: int| 0 <= x < j ==> chars@[lo + x] == target@[x],
        decreases tlen - j,
    {
        if chars[lo + j] != target.get_char(j) {
            proof {
                assert(chars@.subrange(lo as int, hi as int)[j as int] == chars@[lo + j]);
                assert(chars@.subrange(lo as int, hi as int) != target@) by {
                    if chars@.subrange(lo as int, hi as int) == target@ {
                        let jj = j as int;
                        assert(chars@.subrange(lo as int, hi as int)[jj] == target@[jj]);
                    }
                }
            }
            return false;
        }
        j = j + 1;
    }
    proof {
        assert(chars@.subrange(lo as int, hi as int) =~= target@);
    }
    true
}

/// Whether the identifier at `pos` matches component `k` of the target
/// attribute path `inputs.<input>.url`.
fn component_matches(chars: &Vec<char>, lo: usize, hi: usize, input: &str, k: usize) -> (r: bool)
    requires
        lo <= hi <= chars@.len(),
    ensures
        r == (chars@.subrange(lo as int, hi as int) == path_at(input@, k as int)),
{
    if k == 0 {
        span_matches(chars, lo, hi, "inputs")
    } else if k == 1 {
        span_matches(chars, lo, hi, input)
    } else {
        span_matches(chars, lo, hi, "url")
    }
}

/// What walking one dotted identifier path yields: the first position
/// after the path, how many leading components matched the target, whether
/// every walked identifier matched, and whether the path broke off.
#[derive(Clone, Copy, Debug, PartialEq, Eq, Structural)]
struct PathScan {
    cursor: usize,
    matched: usize,
    all_matched: bool,
    malformed: bool,
}

/// Walks the dotted identifier path that starts at `j`, matching each
/// identifier against the remaining target path `inputs.<input>.url` from
/// component `path_from` on.
#[verifier::rlimit(100)]
#[verifier::spinoff_prover]
fn walk_path(toks: &Vec<Tok>, chars: &Vec<char>, input: &str, j: usize, path_from: usize) -> (r:
    PathScan)
    requires
        toks_wf(toks@, chars@),
        j < toks@.len(),
        toks@[j as int].kind is Ident,
        path_from <= 2,
    ensures
        j < r.cursor <= toks@.len(),
        path_from + r.matched <= 3,
        ({
            let w = walk_path_spec(toks@, chars@, input@, j as int, path_from as int, 0, true);
            r.cursor == w.cursor && r.matched == w.matched && r.all_matched == w.all_matched
                && r.malformed == w.malformed
        }),
{
    let n = toks.len();
    let mut pos = j;
    let mut matched: usize = 0;
    let mut all_matched = true;
    loop
        invariant
            toks_wf(toks@, chars@),
            n == toks@.len(),
            j <= pos < toks@.len(),
            toks@[pos as int].kind is Ident,
            path_from <= 2,
            path_from + matched <= 3,
            walk_path_spec(toks@, chars@, input@, j as int, path_from as int, 0, true)
                == walk_path_spec(
                toks@,
                chars@,
                input@,
                pos as int,
                path_from as int,
                matched as int,
                all_matched,
            ),
        decreases toks@.len() - pos,
    {
        let t = toks[pos];
        proof {
            reveal(tok_wf);
            reveal_with_fuel(walk_path_spec, 1);
            assert(tok_wf(toks@[pos as int], chars@));
        }
        if all_matched && path_from + matched < 3 {
            if component_matches(chars, t.lo, t.hi, input, path_from + matched) {
                matched = matched + 1;
            } else {
                all_matched = false;
            }
        } else {
            // an identifier beyond the target path never matches
            all_matched = false;
        }
        let after = skip_trivia(toks, pos + 1);
        if after < toks.len() && matches!(toks[after].kind, TokKind::Dot) {
            let next = skip_trivia(toks, after + 1);
            if next < toks.len() && matches!(toks[next].kind, TokKind::Ident) {
                pos = next;
            } else {
                return PathScan { cursor: next, matched, all_matched, malformed: true };
            }
        } else {
            return PathScan { cursor: after, matched, all_matched, malformed: false };
        }
    }
}

/// What processing one identifier-led entry asks of the search: the found
/// literal, a committed descent into a nested set, the next sibling entry,
/// or the failure the entry forces.
enum EntryStep {
    Found(usize),
    Recurse(usize, usize),
    Next(usize),
    Fail(Error),
}

/// Processes one identifier-led entry of an attribute set: walks its
/// dotted path against the remaining target path and decides what the
/// committed search does with it.
#[verifier::rlimit(100)]
#[verifier::spinoff_prover]
fn entry_step(toks: &Vec<Tok>, chars: &Vec<char>, input: &str, j: usize, path_from: usize) -> (r:
    EntryStep)
    requires
        toks_wf(toks@, chars@),
        j < toks@.len(),
        toks@[j as int].kind is Ident,
        path_from <= 2,
    ensures
        ({
            let f = find_in_set_spec(toks@, chars@, input@, j as int, path_from as int);
            match r {
                EntryStep::Found(k) => k < toks@.len() && toks@[k as int].kind == (TokKind::Str {
                    plain: true,
                }) && f == FindSpec::Found(k as int),
                EntryStep::Recurse(next, pf2) => j < next <= toks@.len() && pf2 <= 2 && f
                    == find_in_set_spec(toks@, chars@, input@, next as int, pf2 as int),
                EntryStep::Next(next) => j < next <= toks@.len() && f == find_in_set_spec(
                    toks@,
                    chars@,
                    input@,
                    next as int,
                    path_from as int,
                ),
                EntryStep::Fail(e) => match e {
                    Error::NotAStringLiteral => f is NotString,
                    Error::NixParserError(_) => f is Parse,
                    _ => false,
                },
            }
        }),
{
    proof {
        reveal_with_fuel(find_in_set_spec, 1);
    }
    let ghost fj = find_in_set_spec(toks@, chars@, input@, j as int, path_from as int);
    let scan = walk_path(toks, chars, input, j, path_from);
    if !scan.malformed && scan.cursor < toks.len() && matches!(toks[scan.cursor].kind, TokKind::Eq) {
        let vstart = skip_trivia(toks, scan.cursor + 1);
        if vstart >= toks.len() {
            proof {
                assert(fj is Parse);
            }
            return EntryStep::Fail(Error::NixParserError(lit("binding without a value")));
        }
        if scan.all_matched && path_from + scan.matched == 3 {
            // the whole remaining path: here stands the literal
            return match toks[vstart].kind {
                TokKind::Str { plain: true } => {
                    proof {
                        assert(fj == FindSpec::Found(vstart as int));
                    }
                    EntryStep::Found(vstart)
                }
                _ => {
                    proof {
                        assert(fj is NotString);
                    }
                    EntryStep::Fail(Error::NotAStringLiteral)
                }
            };
        }
        if scan.all_matched && scan.matched >= 1 && matches!(toks[vstart].kind, TokKind::LBrace) {
            // a strict prefix with a nested set: enter it, committed
            proof {
                assert(fj == find_in_set_spec(
                    toks@,
                    chars@,
                    input@,
                    vstart as int + 1,
                    path_from as int + scan.matched as int,
                ));
            }
            return EntryStep::Recurse(vstart + 1, path_from + scan.matched);
        }
        // no usable match: step over this entry
        match skip_value(toks, vstart) {
            Ok(next) => {
                proof {
                    assert(fj == find_in_set_spec(
                        toks@,
                        chars@,
                        input@,
                        next as int,
                        path_from as int,
                    ));
                }
                EntryStep::Next(next)
            }
            Err(e) => {
                proof {
                    assert(fj is Parse);
                }
                EntryStep::Fail(e)
            }
        }
    } else {
        // not a path-to-value entry (an inherit, or malformed): step over it
        match skip_value(toks, scan.cursor) {
            Ok(next) => {
                proof {
                    assert(fj == find_in_set_spec(
                        toks@,
                        chars@,
                        input@,
                        next as int,
                        path_from as int,
                    ));
                }
                EntryStep::Next(next)
            }
            Err(e) => {
                proof {
                    assert(fj is Parse);
                }
                EntryStep::Fail(e)
            }
        }
    }
}

/// Searches the entries of one attribute set, whose opening brace stands
/// just before `i`, for the remaining target path. An entry whose
/// identifier path matches the whole remaining path must carry a plain
/// string literal; one that matches a strict prefix and carries a nested
/// set is entered, committed; any other entry is stepped over.
#[verifier::rlimit(100)]
#[verifier::spinoff_prover]
fn find_in_set(toks: &Vec<Tok>, chars: &Vec<char>, input: &str, i: usize, path_from: usize) -> (r:
    Result<usize, Error>)
    requires
        toks_wf(toks@, chars@),
        i <= toks@.len(),
        path_from <= 2,
    ensures
        ({
            let f = find_in_set_spec(toks@, chars@, input@, i as int, path_from as int);
            match r {
                Ok(k) => 0 <= k < toks@.len() && toks@[k as int].kind == (TokKind::Str {
                    plain: true,
                }) && f == FindSpec::Found(k as int),
                Err(e) => match e {
                    Error::PathNotFound => f is NotFound,
                    Error::NotAStringLiteral => f is NotString,
                    Error::NixParserError(_) => f is Parse,
                    _ => false,
                },
            }
        }),
    decreases toks@.len() - i,
{
    let mut j = i;
    loop
        invariant
            toks_wf(toks@, chars@),
            i <= j <= toks@.len(),
            path_from <= 2,
            find_in_set_spec(toks@, chars@, input@, i as int, path_from as int)
                == find_in_set_spec(toks@, chars@, input@, j as int, path_from as int),
        decreases toks@.len() - j,
    {
        if j >= toks.len() {
            proof {
                reveal_with_fuel(find_in_set_spec, 1);
                assert(find_in_set_spec(toks@, chars@, input@, j as int, path_from as int)
                    is Parse);
            }
            return Err(Error::NixParserError(lit("attribute set without a closing brace")));
        }
        match toks[j].kind {
            TokKind::Trivia => {
                proof {
                    reveal_with_fuel(find_in_set_spec, 1);
                    assert(find_in_set_spec(toks@, chars@, input@, j as int, path_from as int)
                        == find_in_set_spec(
                        toks@,
                        chars@,
                        input@,
                        j as int + 1,
                        path_from as int,
                    ));
                }
                j = j + 1;
            }
            TokKind::RBrace => {
                proof {
                    reveal_with_fuel(find_in_set_spec, 1);
                    assert(find_in_set_spec(toks@, chars@, input@, j as int, path_from as int)
                        is NotFound);
                }
                return Err(Error::PathNotFound);
            }
            TokKind::Ident => {
                match entry_step(toks, chars, input, j, path_from) {
                    EntryStep::Found(k) => {
                        return Ok(k);
                    }
                    EntryStep::Recurse(next, pf2) => {
                        return find_in_set(toks, chars, input, next, pf2);
                    }
                    EntryStep::Next(next) => {
                        j = next;
                    }
                    EntryStep::Fail(e) => {
                        return Err(e);
                    }
                }
            }
            _ => {
                // an entry that does not start with an identifier: step over
                match skip_value(toks, j) {
                    Ok(next) => {
                        proof {
                            reveal_with_fuel(find_in_set_spec, 1);
                            assert(find_in_set_spec(
                                toks@,
                                chars@,
                                input@,
                                j as int,
                                path_from as int,
                            ) == find_in_set_spec(
                                toks@,
                                chars@,
                                input@,
                                next as int,
                                path_from as int,
                            ));
                        }
                        j = next;
                    }
                    Err(e) => {
                        proof {
                            reveal_with_fuel(find_in_set_spec, 1);
                            assert(find_in_set_spec(
                                toks@,
                                chars@,
                                input@,
                                j as int,
                                path_from as int,
                            ) is Parse);
                        }
                        return Err(e);
                    }
                }
            }
        }
    }
}

/// Locates the plain string literal at `inputs.<input>.url` in a token
/// list whose text must be one attribute set.
#[verifier::rlimit(60)]
fn find_url_token(toks: &Vec<Tok>, chars: &Vec<char>, input: &str) -> (r: Result<usize, Error>)
    requires
        toks_wf(toks@, chars@),
    ensures
        ({
            let f = find_url_spec(toks@, chars@, input@);
            match r {
                Ok(k) => 0 <= k < toks@.len() && toks@[k as int].kind == (TokKind::Str {
                    plain: true,
                }) && f == FindSpec::Found(k as int),
                Err(e) => match e {
                    Error::PathNotFound => f is NotFound,
                    Error::NotAStringLiteral => f is NotString,
                    Error::NixParserError(_) => f is Parse,
                    _ => false,
                },
            }
        }),
{
    let s = skip_trivia(toks, 0);
    if s < toks.len() && matches!(toks[s].kind, TokKind::LBrace) {
        proof {
            assert(find_url_spec(toks@, chars@, input@) == find_in_set_spec(
                toks@,
                chars@,
                input@,
                s as int + 1,
                0,
            ));
        }
        find_in_set(toks, chars, input, s + 1, 0)
    } else {
        proof {
            assert(find_url_spec(toks@, chars@, input@) is Parse);
        }
        Err(Error::NixParserError(lit("root isn't a set")))
    }
}


/// Checks that text may stand verbatim as the content of a plain string
/// literal.
fn url_is_plain(url: &str) -> (r: bool)
    ensures
        r == plain_url(url@),
{
    let n = url.unicode_len();
    let mut i: usize = 0;
    while i < n
        invariant
            i <= n,
            n == url@.len(),
            forall|j: int| 0 <= j < i ==> #[trigger] literal_char_ok(url@, j),
        decreases n - i,
    {
        let c = url.get_char(i);
        if c == '"' || c == '\\' {
            proof {
                assert(!literal_char_ok(url@, i as int));
            }
            return false;
        }
        if c == '$' && i + 1 < n && url.get_char(i + 1) == '{' {
            proof {
                assert(!literal_char_ok(url@, i as int));
            }
            return false;
        }
        proof {
            assert(literal_char_ok(url@, i as int));
        }
        i = i + 1;
    }
    true
}

/// Reads the URL declared for `input`: the verbatim content of the plain
/// string literal at the attribute path `inputs.<input>.url` of the text,
/// under any of the three declaration shapes.
#[verifier::rlimit(100)]
#[verifier::spinoff_prover]
pub fn find_input_url(text: &str, input: &str) -> (r: Result<String, Error>)
    ensures
        match r {
            Ok(s) => extract_spec(text@, input@) == EditSpec::Edited(s@) && (exists|
                lo: int,
                hi: int,
            |
                #[trigger] plain_literal_span(text@, lo, hi) && s@ == text@.subrange(
                    lo + 1,
                    hi - 1,
                )),
            Err(e) => match e {
                Error::PathNotFound => extract_spec(text@, input@) is PathNotFound,
                Error::NotAStringLiteral => extract_spec(text@, input@) is NotAStringLiteral,
                Error::NixParserError(_) => extract_spec(text@, input@) is ParseError,
                _ => false,
            },
        },
{
    let chars = str_to_chars(text);
    let toks = match tokenize(&chars) {
        Ok(toks) => toks,
        Err(e) => {
            proof {
                reveal(extract_spec);
            }
            return Err(e);
        }
    };
    let k = match find_url_token(&toks, &chars, input) {
        Ok(k) => k,
        Err(e) => {
            proof {
                reveal(extract_spec);
            }
            return Err(e);
        }
    };
    let out = literal_content(text, &toks, k);
    proof {
        reveal(extract_spec);
        assert(extract_spec(text@, input@) == EditSpec::Edited(out@));
    }
    Ok(out)
}

/// Copies the content of the plain string literal a token names.
fn literal_content(text: &str, toks: &Vec<Tok>, k: usize) -> (r: String)
    requires
        toks_wf(toks@, text@),
        k < toks@.len(),
        toks@[k as int].kind == (TokKind::Str { plain: true }),
    ensures
        r@ == text@.subrange(toks@[k as int].lo + 1, toks@[k as int].hi - 1),
        exists|lo: int, hi: int|
            #[trigger] plain_literal_span(text@, lo, hi) && r@ == text@.subrange(lo + 1, hi - 1),
{
    let t = toks[k];
    proof {
        reveal(tok_wf);
        assert(tok_wf(toks@[k as int], text@));
        assert(plain_literal_span(text@, t.lo as int, t.hi as int));
    }
    let content = text.substring_char(t.lo + 1, t.hi - 1);
    let out = content.to_owned();
    proof {
        assert(plain_literal_span(text@, t.lo as int, t.hi as int) && out@ == text@.subrange(
            t.lo + 1,
            t.hi - 1,
        ));
    }
    out
}

/// Rewrites the URL declared for `input` to `url`, replacing exactly the
/// content of the located literal: the result is byte-identical to the text
/// everywhere outside that content span, whichever of the three declaration
/// shapes carries it.
#[verifier::rlimit(100)]
#[verifier::spinoff_prover]
pub fn override_input_url(text: &str, input: &str, url: &str) -> (r: Result<String, Error>)
    ensures
        match r {
            Ok(out) => plain_url(url@) && rewrite_spec(text@, input@, url@) == EditSpec::Edited(
                out@,
            ) && (exists|lo: int, hi: int|
                #[trigger] plain_literal_span(text@, lo, hi) && out@ == text@.subrange(0, lo + 1)
                    + url@ + text@.subrange(hi - 1, text@.len() as int)),
            Err(e) => match e {
                Error::SyncError(_) => !plain_url(url@),
                Error::PathNotFound => plain_url(url@) && rewrite_spec(text@, input@, url@)
                    is PathNotFound,
                Error::NotAStringLiteral => plain_url(url@) && rewrite_spec(text@, input@, url@)
                    is NotAStringLiteral,
                Error::NixParserError(_) => plain_url(url@) && rewrite_spec(text@, input@, url@)
                    is ParseError,
                _ => false,
            },
        },
{
    if !url_is_plain(url) {
        return Err(
            Error::SyncError(lit("the replacement URL cannot stand in a string literal")),
        );
    }
    let chars = str_to_chars(text);
    let toks = match tokenize(&chars) {
        Ok(toks) => toks,
        Err(e) => {
            proof {
                reveal(rewrite_spec);
            }
            return Err(e);
        }
    };
    let k = match find_url_token(&toks, &chars, input) {
        Ok(k) => k,
        Err(e) => {
            proof {
                reveal(rewrite_spec);
            }
            return Err(e);
        }
    };
    let t = toks[k];
    proof {
        reveal(tok_wf);
        assert(tok_wf(toks@[k as int], chars@));
        assert(plain_literal_span(text@, t.lo as int, t.hi as int));
        assert(toks_wf(toks@, text@));
    }
    let n = text.unicode_len();
    let mut out = text.substring_char(0, t.lo + 1).to_owned();
    out.append(url);
    out.append(text.substring_char(t.hi - 1, n));
    proof {
        reveal(rewrite_spec);
        assert(plain_literal_span(text@, t.lo as int, t.hi as int) && out@ == text@.subrange(
            0,
            t.lo + 1,
        ) + url@ + text@.subrange(t.hi - 1, text@.len() as int));
        assert(rewrite_spec(text@, input@, url@) == EditSpec::Edited(out@));
    }
    Ok(out)
}

/// Syncs the destination's declaration of an input to the source's: the
/// URL declared in the source text replaces the one declared in the
/// destination text, and every byte outside that literal's content span is
/// kept as it stands.
#[verifier::rlimit(100)]
#[verifier::spinoff_prover]
pub fn sync(source_flake_nix: &str, destination_flake_nix: &str, input_names: &SyncInputNames) -> (r:
    Result<String, Error>)
    ensures
        match r {
            Ok(out) => sync_spec(source_flake_nix@, destination_flake_nix@, input_names@)
                == EditSpec::Edited(out@),
            Err(e) => match e {
                Error::PathNotFound => sync_spec(
                    source_flake_nix@,
                    destination_flake_nix@,
                    input_names@,
                ) is PathNotFound,
                Error::NotAStringLiteral => sync_spec(
                    source_flake_nix@,
                    destination_flake_nix@,
                    input_names@,
                ) is NotAStringLiteral,
                Error::NixParserError(_) => sync_spec(
                    source_flake_nix@,
                    destination_flake_nix@,
                    input_names@,
                ) is ParseError,
                _ => false,
            },
        },
{
    let url = match find_input_url(source_flake_nix, input_names.source().as_str()) {
        Ok(u) => u,
        Err(e) => {
            proof {
                reveal(sync_spec);
            }
            return Err(e);
        }
    };
    proof {
        let (slo, shi) = choose|slo: int, shi: int|
            #[trigger] plain_literal_span(source_flake_nix@, slo, shi) && url@
                == source_flake_nix@.subrange(slo + 1, shi - 1);
        assert forall|i: int| 0 <= i < url@.len() implies #[trigger] literal_char_ok(
            url@,
            i,
        ) by {
            assert(literal_char_ok(source_flake_nix@, slo + 1 + i));
            assert(url@[i] == source_flake_nix@[slo + 1 + i]);
            if i + 1 < url@.len() {
                assert(url@[i + 1] == source_flake_nix@[slo + 1 + i + 1]);
            }
        }
        assert(plain_url(url@));
    }
    match override_input_url(
        destination_flake_nix,
        input_names.destination().as_str(),
        url.as_str(),
    ) {
        Ok(out) => {
            proof {
                reveal(sync_spec);
            }
            Ok(out)
        }
        Err(e) => {
            proof {
                reveal(sync_spec);
                assert(!(e matches Error::SyncError(_)));
            }
            Err(e)
        }
    }
}

impl SyncServiceImpl {
    /// Syncs the destination flake text's declaration of an input to the
    /// source flake text's, value to value.
    pub fn sync(&self, source: &FlakeNix, destination: &FlakeNix, input: &SyncInputNames) -> (r:
        Result<FlakeNix, Error>)
        ensures
            match r {
                Ok(out) => sync_spec(source@, destination@, input@) == EditSpec::Edited(out@),
                Err(e) => match e {
                    Error::PathNotFound => sync_spec(source@, destination@, input@)
                        is PathNotFound,
                    Error::NotAStringLiteral => sync_spec(source@, destination@, input@)
                        is NotAStringLiteral,
                    Error::NixParserError(_) => sync_spec(source@, destination@, input@)
                        is ParseError,
                    _ => false,
                },
            },
    {
        let src = source.as_string();
        let dst = destination.as_string();
        match sync(src.as_str(), dst.as_str(), input) {
            Ok(out) => Ok(FlakeNix::new(out)),
            Err(e) => Err(e),
        }
    }
}


/// One direction of the rewrite round trip: the text a rewrite produces
/// holds the new URL verbatim as a plain string literal in the edited span,
/// between the kept quotes. Reading the URL back is therefore a matter of
/// locating that span again.
pub proof fn lemma_rewritten_text_holds_url(
    text: Seq<char>,
    url: Seq<char>,
    out: Seq<char>,
    lo: int,
    hi: int,
)
    requires
        plain_literal_span(text, lo, hi),
        plain_url(url),
        out == text.subrange(0, lo + 1) + url + text.subrange(hi - 1, text.len() as int),
    ensures
        out.len() == text.len() - (hi - lo) + url.len() + 2,
        out.subrange(lo + 1, lo + 1 + url.len()) == url,
        plain_literal_span(out, lo, lo + url.len() + 2),
{
    assert(out.len() == (lo + 1) + url.len() + (text.len() - (hi - 1)));
    assert(out.subrange(lo + 1, lo + 1 + url.len()) =~= url);
    assert(out[lo] == text[lo]);
    assert(out[lo + 1 + url.len()] == text[hi - 1]);
    assert forall|i: int| lo + 1 <= i < lo + 1 + url.len() implies #[trigger] literal_char_ok(
        out,
        i,
    ) by {
        assert(out[i] == url[i - (lo + 1)]);
        assert(literal_char_ok(url, i - (lo + 1)));
        if out[i] == '$' && i + 1 < out.len() && out[i + 1] == '{' {
            if i - (lo + 1) + 1 < url.len() {
                assert(url[i - (lo + 1) + 1] == '{');
            } else {
                assert(out[i + 1] == text[hi - 1]);
            }
        }
    }
}

} // verus!
