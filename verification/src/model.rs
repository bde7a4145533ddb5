//! The mathematical model of the scan.
//!
//! `spec_tokenize` says, over a sequence of characters, exactly which
//! token sequence (or which error) a scan of that text produces.  The
//! executable scanner's contract pins its result to this model.

use vstd::prelude::*;
use crate::tokenizer::Keyword;
use crate::tokenizer::spec_is_can_start_ident;
use crate::tokenizer::spec_is_ident;
use crate::tokenizer::spec_is_whitespace;

verus! {

/// The model of one token: as `Token`, but with the identifier text as a
/// sequence of characters.
pub enum SpecToken {
    Identifier(Seq<char>),
    Plus,
    PlusPlus,
    PlusEqual,
    Star,
    StarStar,
    Minus,
    MinusMinus,
    MinusEqual,
    Colon,
    ColonColon,
    Equal,
    EqualEqual,
    Dot,
    DotDot,
    ThinArrow,
    FatArrow,
    Lt,
    LtEqual,
    Gt,
    GtEqual,
    Bang,
    BangEqual,
    Lparen,
    Rparen,
    Lbracket,
    Rbracket,
    Lbrace,
    Rbrace,
    Comma,
    Slash,
    Keyword(Keyword),
    EOF,
}

/// The model of a scan failure: the character the scanner could not
/// place in any class, and the cursor offset at which it stood.
pub struct SpecError {
    pub character: char,
    pub offset: int,
}

/// The keyword, if any, whose text is exactly `s`.
pub open spec fn spec_keyword_of(s: Seq<char>) -> Option<Keyword> {
    if s =~= seq!['l', 'e', 't'] {
        Some(Keyword::Let)
    } else if s =~= seq!['f', 'n'] {
        Some(Keyword::Fn)
    } else if s =~= seq!['i', 'f'] {
        Some(Keyword::If)
    } else if s =~= seq!['e', 'l', 's', 'e'] {
        Some(Keyword::Else)
    } else if s =~= seq!['t', 'h', 'e', 'n'] {
        Some(Keyword::Then)
    } else if s =~= seq!['i', 'm', 'p', 'o', 'r', 't'] {
        Some(Keyword::Import)
    } else if s =~= seq!['p', 'u', 'b'] {
        Some(Keyword::Pub)
    } else if s =~= seq!['m', 'o', 'd', 'u', 'l', 'e'] {
        Some(Keyword::Module)
    } else if s =~= seq!['s', 't', 'r', 'u', 'c', 't'] {
        Some(Keyword::Struct)
    } else if s =~= seq!['e', 'n', 'u', 'm'] {
        Some(Keyword::Enum)
    } else if s =~= seq!['r', 'e', 't', 'u', 'r', 'n'] {
        Some(Keyword::Return)
    } else if s =~= seq!['r', 'e', 'q', 'u', 'i', 'r', 'e'] {
        Some(Keyword::Require)
    } else if s =~= seq!['e', 'x', 't', 'e', 'r', 'n', 'a', 'l'] {
        Some(Keyword::External)
    } else if s =~= seq!['i', 'n'] {
        Some(Keyword::In)
    } else {
        None
    }
}

/// The token for a completed identifier run: a keyword where the text
/// matches the keyword table exactly, else an identifier.
pub open spec fn spec_ident_token(s: Seq<char>) -> SpecToken {
    match spec_keyword_of(s) {
        Some(k) => SpecToken::Keyword(k),
        None => SpecToken::Identifier(s),
    }
}

/// The position just past the run of identifier characters that starts
/// at `j`: the least `e >= j` with `e == text.len()` or `text[e]` not an
/// identifier character.
pub open spec fn ident_end(text: Seq<char>, j: int) -> int
    recommends
        0 <= j <= text.len(),
    decreases text.len() - j,
{
    if j < 0 || j >= text.len() {
        j
    } else if spec_is_ident(text[j]) {
        ident_end(text, j + 1)
    } else {
        j
    }
}

pub proof fn lemma_ident_end_bounds(text: Seq<char>, j: int)
    requires
        0 <= j <= text.len(),
    ensures
        j <= ident_end(text, j) <= text.len(),
    decreases text.len() - j,
{
    if j < text.len() && spec_is_ident(text[j]) {
        lemma_ident_end_bounds(text, j + 1);
    }
}

/// What the scanner does with the character at position `i`: emit a
/// token and advance, skip whitespace, or reject the character.
pub enum SpecStep {
    /// Emit this token and advance the cursor by this many characters.
    Emit(SpecToken, int),
    /// Advance the cursor by one character, emitting nothing.
    Skip,
    /// Fail the scan on an unrecognized character.
    Reject,
}

/// The scanner's dispatch on the character at position `i` of `text`.
/// Two-character operators are matched before their one-character
/// prefixes (longest match first).
pub open spec fn spec_step_at(text: Seq<char>, i: int) -> SpecStep
    recommends
        0 <= i < text.len(),
{
    let c = text[i];
    let two = i + 1 < text.len();
    if c == '(' {
        SpecStep::Emit(SpecToken::Lparen, 1)
    } else if c == ')' {
        SpecStep::Emit(SpecToken::Rparen, 1)
    } else if c == '[' {
        SpecStep::Emit(SpecToken::Lbracket, 1)
    } else if c == ']' {
        SpecStep::Emit(SpecToken::Rbracket, 1)
    } else if c == '{' {
        SpecStep::Emit(SpecToken::Lbrace, 1)
    } else if c == '}' {
        SpecStep::Emit(SpecToken::Rbrace, 1)
    } else if c == ',' {
        SpecStep::Emit(SpecToken::Comma, 1)
    } else if c == '/' {
        SpecStep::Emit(SpecToken::Slash, 1)
    } else if c == ':' {
        if two && text[i + 1] == ':' {
            SpecStep::Emit(SpecToken::ColonColon, 2)
        } else {
            SpecStep::Emit(SpecToken::Colon, 1)
        }
    } else if c == '*' {
        if two && text[i + 1] == '*' {
            SpecStep::Emit(SpecToken::StarStar, 2)
        } else {
            SpecStep::Emit(SpecToken::Star, 1)
        }
    } else if c == '=' {
        if two && text[i + 1] == '=' {
            SpecStep::Emit(SpecToken::EqualEqual, 2)
        } else if two && text[i + 1] == '>' {
            SpecStep::Emit(SpecToken::FatArrow, 2)
        } else {
            SpecStep::Emit(SpecToken::Equal, 1)
        }
    } else if c == '!' {
        if two && text[i + 1] == '=' {
            SpecStep::Emit(SpecToken::BangEqual, 2)
        } else {
            SpecStep::Emit(SpecToken::Bang, 1)
        }
    } else if c == '-' {
        if two && text[i + 1] == '>' {
            SpecStep::Emit(SpecToken::ThinArrow, 2)
        } else if two && text[i + 1] == '-' {
            SpecStep::Emit(SpecToken::MinusMinus, 2)
        } else if two && text[i + 1] == '=' {
            SpecStep::Emit(SpecToken::MinusEqual, 2)
        } else {
            SpecStep::Emit(SpecToken::Minus, 1)
        }
    } else if c == '+' {
        if two && text[i + 1] == '+' {
            SpecStep::Emit(SpecToken::PlusPlus, 2)
        } else if two && text[i + 1] == '=' {
            SpecStep::Emit(SpecToken::PlusEqual, 2)
        } else {
            SpecStep::Emit(SpecToken::Plus, 1)
        }
    } else if c == '>' {
        if two && text[i + 1] == '=' {
            SpecStep::Emit(SpecToken::GtEqual, 2)
        } else {
            SpecStep::Emit(SpecToken::Gt, 1)
        }
    } else if c == '<' {
        if two && text[i + 1] == '=' {
            SpecStep::Emit(SpecToken::LtEqual, 2)
        } else {
            SpecStep::Emit(SpecToken::Lt, 1)
        }
    } else if spec_is_can_start_ident(c) {
        let e = ident_end(text, i + 1);
        SpecStep::Emit(spec_ident_token(text.subrange(i, e)), e - i)
    } else if spec_is_whitespace(c) {
        SpecStep::Skip
    } else {
        SpecStep::Reject
    }
}

/// Every step taken at a position inside the text advances the cursor by
/// at least one character and never past the end of the text.
pub proof fn lemma_step_at_advance(text: Seq<char>, i: int)
    requires
        0 <= i < text.len(),
    ensures
        match spec_step_at(text, i) {
            SpecStep::Emit(t, n) => 1 <= n && i + n <= text.len(),
            SpecStep::Skip => true,
            SpecStep::Reject => true,
        },
{
    if spec_step_at(text, i) is Emit {
        lemma_ident_end_bounds(text, i + 1);
    }
}

/// The token sequence (or the error) that a scan of `text` produces from
/// position `i` on.  A scan that reaches the end of the text yields the
/// single token `EOF`.
pub open spec fn spec_tokenize_from(text: Seq<char>, i: int) -> Result<Seq<SpecToken>, SpecError>
    decreases text.len() - i,
    when 0 <= i <= text.len()
    via spec_tokenize_from_decreases
{
    if i >= text.len() {
        Ok(seq![SpecToken::EOF])
    } else {
        match spec_step_at(text, i) {
            SpecStep::Emit(t, n) => match spec_tokenize_from(text, i + n) {
                Ok(rest) => Ok(seq![t] + rest),
                Err(e) => Err(e),
            },
            SpecStep::Skip => spec_tokenize_from(text, i + 1),
            SpecStep::Reject => Err(SpecError { character: text[i], offset: i }),
        }
    }
}

#[via_fn]
proof fn spec_tokenize_from_decreases(text: Seq<char>, i: int) {
    if 0 <= i < text.len() {
        lemma_step_at_advance(text, i);
    }
}

/// The token sequence (or the error) that a scan of the whole of `text`
/// produces.
pub open spec fn spec_tokenize(text: Seq<char>) -> Result<Seq<SpecToken>, SpecError> {
    spec_tokenize_from(text, 0)
}

/// `rest` with `prefix` placed before its tokens; an error is passed
/// through unchanged.
pub open spec fn prepend_tokens(
    prefix: Seq<SpecToken>,
    rest: Result<Seq<SpecToken>, SpecError>,
) -> Result<Seq<SpecToken>, SpecError> {
    match rest {
        Ok(ts) => Ok(prefix + ts),
        Err(e) => Err(e),
    }
}

pub proof fn lemma_prepend_tokens_assoc(
    p: Seq<SpecToken>,
    q: Seq<SpecToken>,
    rest: Result<Seq<SpecToken>, SpecError>,
)
    ensures
        prepend_tokens(p + q, rest) == prepend_tokens(p, prepend_tokens(q, rest)),
{
    match rest {
        Ok(ts) => {
            assert((p + q) + ts =~= p + (q + ts));
        },
        Err(e) => {},
    }
}

/// Unfolding of the scan at a position whose step emits a token: the
/// emitted token stands first, and the scan goes on past it.
pub proof fn lemma_step_emit(text: Seq<char>, i: int, t: SpecToken, n: int)
    requires
        0 <= i < text.len(),
        spec_step_at(text, i) == SpecStep::Emit(t, n),
    ensures
        1 <= n,
        i + n <= text.len(),
        spec_tokenize_from(text, i) == prepend_tokens(seq![t], spec_tokenize_from(text, i + n)),
{
    lemma_step_at_advance(text, i);
}

/// Unfolding of the scan at a position whose step skips a whitespace
/// character: the scan from there equals the scan from the next position.
pub proof fn lemma_step_skip(text: Seq<char>, i: int)
    requires
        0 <= i < text.len(),
        spec_step_at(text, i) == SpecStep::Skip,
    ensures
        spec_tokenize_from(text, i) == spec_tokenize_from(text, i + 1),
{
}

/// Unfolding of the scan at a position whose step rejects the character:
/// the scan fails, carrying that character and its offset.
pub proof fn lemma_step_reject(text: Seq<char>, i: int)
    requires
        0 <= i < text.len(),
        spec_step_at(text, i) == SpecStep::Reject,
    ensures
        spec_tokenize_from(text, i) == Err::<Seq<SpecToken>, SpecError>(
            SpecError { character: text[i], offset: i },
        ),
{
}

} // verus!
