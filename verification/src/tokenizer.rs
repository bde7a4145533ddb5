//! The executable scanner: token types, character classification,
//! keyword lookup, and `tokenize` itself.

use vstd::prelude::*;
use vstd::pervasive::unreached;
use vstd::string::StrSliceExecFns;
use vstd::string::StringExecFns;
use crate::model::SpecError;
use crate::model::SpecToken;
use crate::model::ident_end;
use crate::model::lemma_prepend_tokens_assoc;
use crate::model::lemma_step_emit;
use crate::model::lemma_step_reject;
use crate::model::lemma_step_skip;
use crate::model::prepend_tokens;
use crate::model::spec_keyword_of;
use crate::model::spec_tokenize;
use crate::model::spec_tokenize_from;

verus! {

/// The reserved words of the language.  An identifier whose text matches
/// one of these exactly (case-sensitive) is scanned as a keyword.
#[derive(Debug, PartialEq, Eq, Structural, Clone, Copy)]
pub enum Keyword {
    Let,
    Fn,
    If,
    Else,
    Then,
    Import,
    Pub,
    Module,
    Struct,
    Enum,
    Return,
    Require,
    External,
    In,
}

/// One lexical unit of the source text.  Tokens carry no position
/// information and are immutable once produced.  `EOF` marks the end of
/// the input and appears exactly once, as the last token of a scan.
#[derive(Debug)]
pub enum Token {
    Identifier(String),
    Plus,
    PlusPlus,
    PlusEqual,
    Star,
    StarStar,
    Minus,
    MinusMinus,
    MinusEqual,
    Colon,
    ColonColon,
    Equal,
    EqualEqual,
    Dot,
    DotDot,
    ThinArrow,
    FatArrow,
    Lt,
    LtEqual,
    Gt,
    GtEqual,
    Bang,
    BangEqual,
    Lparen,
    Rparen,
    Lbracket,
    Rbracket,
    Lbrace,
    Rbrace,
    Comma,
    Slash,
    Keyword(Keyword),
    EOF,
}

/// Whether `c` may start an identifier: an ASCII letter or an underscore.
pub open spec fn spec_is_can_start_ident(c: char) -> bool {
    ('a' <= c && c <= 'z') || ('A' <= c && c <= 'Z') || c == '_'
}

/// Whether `c` is an ASCII decimal digit.
pub open spec fn spec_is_digit(c: char) -> bool {
    '0' <= c && c <= '9'
}

/// Whether `c` may continue an identifier: a letter, digit or underscore.
pub open spec fn spec_is_ident(c: char) -> bool {
    spec_is_can_start_ident(c) || spec_is_digit(c)
}

/// Whether `c` is one of the four whitespace characters the scanner skips.
pub open spec fn spec_is_whitespace(c: char) -> bool {
    c == ' ' || c == '\t' || c == '\n' || c == '\r'
}

#[verifier::when_used_as_spec(spec_is_can_start_ident)]
pub fn is_can_start_ident(ch: char) -> (r: bool)
    ensures
        r == spec_is_can_start_ident(ch),
{
    (ch >= 'a' && ch <= 'z') || (ch >= 'A' && ch <= 'Z') || ch == '_'
}

#[verifier::when_used_as_spec(spec_is_digit)]
pub fn is_digit(ch: char) -> (r: bool)
    ensures
        r == spec_is_digit(ch),
{
    ch >= '0' && ch <= '9'
}

#[verifier::when_used_as_spec(spec_is_ident)]
pub fn is_ident(ch: char) -> (r: bool)
    ensures
        r == spec_is_ident(ch),
{
    is_can_start_ident(ch) || is_digit(ch)
}

impl View for Token {
    type V = SpecToken;

    open spec fn view(&self) -> SpecToken {
        match self {
            Token::Identifier(s) => SpecToken::Identifier(s@),
            Token::Plus => SpecToken::Plus,
            Token::PlusPlus => SpecToken::PlusPlus,
            Token::PlusEqual => SpecToken::PlusEqual,
            Token::Star => SpecToken::Star,
            Token::StarStar => SpecToken::StarStar,
            Token::Minus => SpecToken::Minus,
            Token::MinusMinus => SpecToken::MinusMinus,
            Token::MinusEqual => SpecToken::MinusEqual,
            Token::Colon => SpecToken::Colon,
            Token::ColonColon => SpecToken::ColonColon,
            Token::Equal => SpecToken::Equal,
            Token::EqualEqual => SpecToken::EqualEqual,
            Token::Dot => SpecToken::Dot,
            Token::DotDot => SpecToken::DotDot,
            Token::ThinArrow => SpecToken::ThinArrow,
            Token::FatArrow => SpecToken::FatArrow,
            Token::Lt => SpecToken::Lt,
            Token::LtEqual => SpecToken::LtEqual,
            Token::Gt => SpecToken::Gt,
            Token::GtEqual => SpecToken::GtEqual,
            Token::Bang => SpecToken::Bang,
            Token::BangEqual => SpecToken::BangEqual,
            Token::Lparen => SpecToken::Lparen,
            Token::Rparen => SpecToken::Rparen,
            Token::Lbracket => SpecToken::Lbracket,
            Token::Rbracket => SpecToken::Rbracket,
            Token::Lbrace => SpecToken::Lbrace,
            Token::Rbrace => SpecToken::Rbrace,
            Token::Comma => SpecToken::Comma,
            Token::Slash => SpecToken::Slash,
            Token::Keyword(k) => SpecToken::Keyword(*k),
            Token::EOF => SpecToken::EOF,
        }
    }
}

impl PartialEq for Token {
    fn eq(&self, other: &Token) -> (r: bool) {
        match (self, other) {
            (Token::Identifier(a), Token::Identifier(b)) => a.eq(b),
            (Token::Plus, Token::Plus) => true,
            (Token::PlusPlus, Token::PlusPlus) => true,
            (Token::PlusEqual, Token::PlusEqual) => true,
            (Token::Star, Token::Star) => true,
            (Token::StarStar, Token::StarStar) => true,
            (Token::Minus, Token::Minus) => true,
            (Token::MinusMinus, Token::MinusMinus) => true,
            (Token::MinusEqual, Token::MinusEqual) => true,
            (Token::Colon, Token::Colon) => true,
            (Token::ColonColon, Token::ColonColon) => true,
            (Token::Equal, Token::Equal) => true,
            (Token::EqualEqual, Token::EqualEqual) => true,
            (Token::Dot, Token::Dot) => true,
            (Token::DotDot, Token::DotDot) => true,
            (Token::ThinArrow, Token::ThinArrow) => true,
            (Token::FatArrow, Token::FatArrow) => true,
            (Token::Lt, Token::Lt) => true,
            (Token::LtEqual, Token::LtEqual) => true,
            (Token::Gt, Token::Gt) => true,
            (Token::GtEqual, Token::GtEqual) => true,
            (Token::Bang, Token::Bang) => true,
            (Token::BangEqual, Token::BangEqual) => true,
            (Token::Lparen, Token::Lparen) => true,
            (Token::Rparen, Token::Rparen) => true,
            (Token::Lbracket, Token::Lbracket) => true,
            (Token::Rbracket, Token::Rbracket) => true,
            (Token::Lbrace, Token::Lbrace) => true,
            (Token::Rbrace, Token::Rbrace) => true,
            (Token::Comma, Token::Comma) => true,
            (Token::Slash, Token::Slash) => true,
            (Token::Keyword(a), Token::Keyword(b)) => *a == *b,
            (Token::EOF, Token::EOF) => true,
            _ => false,
        }
    }
}

impl vstd::std_specs::cmp::PartialEqSpecImpl for Token {
    open spec fn obeys_eq_spec() -> bool {
        true
    }

    open spec fn eq_spec(&self, other: &Token) -> bool {
        self@ == other@
    }
}

/// The error a scan returns on a character outside every class the
/// scanner recognizes: the character itself and the cursor offset (in
/// characters from the start of the input) at which it stood.
#[derive(Debug, PartialEq, Eq, Structural, Clone, Copy)]
pub struct TokenizeError {
    pub character: char,
    pub offset: usize,
}

impl View for TokenizeError {
    type V = SpecError;

    open spec fn view(&self) -> SpecError {
        SpecError { character: self.character, offset: self.offset as int }
    }
}

/// Character-for-character equality of two string slices.
fn str_eq(a: &str, b: &str) -> (r: bool)
    ensures
        r == (a@ == b@),
{
    let alen: usize = a.unicode_len();
    let blen: usize = b.unicode_len();
    if alen != blen {
        return false;
    }
    let mut i: usize = 0;
    while i < alen
        invariant
            alen == a@.len(),
            blen == b@.len(),
            alen == blen,
            0 <= i <= alen,
            forall|k: int| 0 <= k < i ==> a@[k] == b@[k],
        decreases alen - i,
    {
        if a.get_char(i) != b.get_char(i) {
            return false;
        }
        i += 1;
    }
    proof {
        assert(a@ =~= b@);
    }
    true
}

impl Keyword {
    /// The keyword whose text is exactly `ident`, if there is one.
    pub fn from_ident(ident: &str) -> (r: Option<Keyword>)
        ensures
            r == spec_keyword_of(ident@),
    {
        proof {
            reveal_strlit("let");
            reveal_strlit("fn");
            reveal_strlit("if");
            reveal_strlit("else");
            reveal_strlit("then");
            reveal_strlit("import");
            reveal_strlit("pub");
            reveal_strlit("module");
            reveal_strlit("struct");
            reveal_strlit("enum");
            reveal_strlit("return");
            reveal_strlit("require");
            reveal_strlit("external");
            reveal_strlit("in");
            assert("let"@ =~= seq!['l', 'e', 't']);
            assert("fn"@ =~= seq!['f', 'n']);
            assert("if"@ =~= seq!['i', 'f']);
            assert("else"@ =~= seq!['e', 'l', 's', 'e']);
            assert("then"@ =~= seq!['t', 'h', 'e', 'n']);
            assert("import"@ =~= seq!['i', 'm', 'p', 'o', 'r', 't']);
            assert("pub"@ =~= seq!['p', 'u', 'b']);
            assert("module"@ =~= seq!['m', 'o', 'd', 'u', 'l', 'e']);
            assert("struct"@ =~= seq!['s', 't', 'r', 'u', 'c', 't']);
            assert("enum"@ =~= seq!['e', 'n', 'u', 'm']);
            assert("return"@ =~= seq!['r', 'e', 't', 'u', 'r', 'n']);
            assert("require"@ =~= seq!['r', 'e', 'q', 'u', 'i', 'r', 'e']);
            assert("external"@ =~= seq!['e', 'x', 't', 'e', 'r', 'n', 'a', 'l']);
            assert("in"@ =~= seq!['i', 'n']);
        }
        if str_eq(ident, "let") {
            Some(Keyword::Let)
        } else if str_eq(ident, "fn") {
            Some(Keyword::Fn)
        } else if str_eq(ident, "if") {
            Some(Keyword::If)
        } else if str_eq(ident, "else") {
            Some(Keyword::Else)
        } else if str_eq(ident, "then") {
            Some(Keyword::Then)
        } else if str_eq(ident, "import") {
            Some(Keyword::Import)
        } else if str_eq(ident, "pub") {
            Some(Keyword::Pub)
        } else if str_eq(ident, "module") {
            Some(Keyword::Module)
        } else if str_eq(ident, "struct") {
            Some(Keyword::Struct)
        } else if str_eq(ident, "enum") {
            Some(Keyword::Enum)
        } else if str_eq(ident, "return") {
            Some(Keyword::Return)
        } else if str_eq(ident, "require") {
            Some(Keyword::Require)
        } else if str_eq(ident, "external") {
            Some(Keyword::External)
        } else if str_eq(ident, "in") {
            Some(Keyword::In)
        } else {
            None
        }
    }
}

/// The views of the tokens of `ts`, in order.
pub open spec fn token_views(ts: Seq<Token>) -> Seq<SpecToken> {
    ts.map_values(|t: Token| t@)
}

proof fn lemma_token_views_push(ts: Seq<Token>, t: Token)
    ensures
        token_views(ts.push(t)) == token_views(ts) + seq![t@],
{
    assert(token_views(ts.push(t)) =~= token_views(ts) + seq![t@]);
}

/// The scanner's state: a cursor into an immutable view of the source
/// text.  The cursor only ever moves forward and never passes the end of
/// the text; `len` caches the text's length in characters.
struct TokenizerWorktable<'a> {
    cursor: usize,
    text: &'a str,
    len: usize,
}

impl<'a> TokenizerWorktable<'a> {
    /// The scanner state's invariant.
    spec fn wf(&self) -> bool {
        &&& self.len == self.text@.len()
        &&& self.cursor <= self.len
    }

    fn new(program_text: &'a str) -> (r: TokenizerWorktable<'a>)
        ensures
            r.wf(),
            r.cursor == 0,
            r.text@ == program_text@,
    {
        let len: usize = program_text.unicode_len();
        TokenizerWorktable { cursor: 0, text: program_text, len }
    }

    /// The character `offset` places past the cursor, if the text still
    /// has one there.
    fn peek(&self, offset: usize) -> (r: Option<char>)
        requires
            self.wf(),
        ensures
            self.cursor + offset < self.text@.len() ==> r == Some(
                self.text@[self.cursor + offset],
            ),
            self.cursor + offset >= self.text@.len() ==> r is None,
    {
        if offset < self.len - self.cursor {
            Some(self.text.get_char(self.cursor + offset))
        } else {
            None
        }
    }

    /// Move the cursor forward by `offset` characters.
    fn step(&mut self, offset: usize)
        requires
            old(self).wf(),
            old(self).cursor + offset <= old(self).text@.len(),
        ensures
            final(self).wf(),
            final(self).cursor == old(self).cursor + offset,
            final(self).text@ == old(self).text@,
            final(self).len == old(self).len,
    {
        self.cursor = self.cursor + offset;
    }
}

/// Scan `program_text` into its token sequence.
///
/// On success the tokens are exactly those of the model scan of the
/// text, ending in `EOF`; on failure the scan stopped at the first
/// character outside every class the scanner recognizes, and the error
/// carries that character and its offset, as the model scan says.
pub fn tokenize(program_text: &str) -> (r: Result<Vec<Token>, TokenizeError>)
    ensures
        match r {
            Ok(tokens) => spec_tokenize(program_text@) == Ok::<Seq<SpecToken>, SpecError>(
                token_views(tokens@),
            ),
            Err(e) => spec_tokenize(program_text@) == Err::<Seq<SpecToken>, SpecError>(e@),
        },
{
    let ghost text = program_text@;
    let mut twt = TokenizerWorktable::new(program_text);
    let mut token_list: Vec<Token> = Vec::new();
    while twt.cursor < twt.len
        invariant
            text == program_text@,
            twt.wf(),
            twt.text@ == text,
            prepend_tokens(
                token_views(token_list@),
                spec_tokenize_from(text, twt.cursor as int),
            ) == spec_tokenize(text),
        decreases twt.len - twt.cursor,
    {
        let ghost i: int = twt.cursor as int;
        let cur_char = match twt.peek(0) {
            Some(c) => c,
            None => unreached(),
        };
        let emit: Option<Token>;
        let adv: usize;
        match cur_char {
            '(' => {
                emit = Some(Token::Lparen);
                adv = 1;
            },
            ')' => {
                emit = Some(Token::Rparen);
                adv = 1;
            },
            '[' => {
                emit = Some(Token::Lbracket);
                adv = 1;
            },
            ']' => {
                emit = Some(Token::Rbracket);
                adv = 1;
            },
            '{' => {
                emit = Some(Token::Lbrace);
                adv = 1;
            },
            '}' => {
                emit = Some(Token::Rbrace);
                adv = 1;
            },
            ',' => {
                emit = Some(Token::Comma);
                adv = 1;
            },
            '/' => {
                emit = Some(Token::Slash);
                adv = 1;
            },
            ':' => {
                match twt.peek(1) {
                    Some(':') => {
                        emit = Some(Token::ColonColon);
                        adv = 2;
                    },
                    _ => {
                        emit = Some(Token::Colon);
                        adv = 1;
                    },
                }
            },
            '*' => {
                match twt.peek(1) {
                    Some('*') => {
                        emit = Some(Token::StarStar);
                        adv = 2;
                    },
                    _ => {
                        emit = Some(Token::Star);
                        adv = 1;
                    },
                }
            },
            '=' => {
                match twt.peek(1) {
                    Some('=') => {
                        emit = Some(Token::EqualEqual);
                        adv = 2;
                    },
                    Some('>') => {
                        emit = Some(Token::FatArrow);
                        adv = 2;
                    },
                    _ => {
                        emit = Some(Token::Equal);
                        adv = 1;
                    },
                }
            },
            '!' => {
                match twt.peek(1) {
                    Some('=') => {
                        emit = Some(Token::BangEqual);
                        adv = 2;
                    },
                    _ => {
                        emit = Some(Token::Bang);
                        adv = 1;
                    },
                }
            },
            '-' => {
                match twt.peek(1) {
                    Some('>') => {
                        emit = Some(Token::ThinArrow);
                        adv = 2;
                    },
                    Some('-') => {
                        emit = Some(Token::MinusMinus);
                        adv = 2;
                    },
                    Some('=') => {
                        emit = Some(Token::MinusEqual);
                        adv = 2;
                    },
                    _ => {
                        emit = Some(Token::Minus);
                        adv = 1;
                    },
                }
            },
            '+' => {
                match twt.peek(1) {
                    Some('+') => {
                        emit = Some(Token::PlusPlus);
                        adv = 2;
                    },
                    Some('=') => {
                        emit = Some(Token::PlusEqual);
                        adv = 2;
                    },
                    _ => {
                        emit = Some(Token::Plus);
                        adv = 1;
                    },
                }
            },
            '>' => {
                match twt.peek(1) {
                    Some('=') => {
                        emit = Some(Token::GtEqual);
                        adv = 2;
                    },
                    _ => {
                        emit = Some(Token::Gt);
                        adv = 1;
                    },
                }
            },
            '<' => {
                match twt.peek(1) {
                    Some('=') => {
                        emit = Some(Token::LtEqual);
                        adv = 2;
                    },
                    _ => {
                        emit = Some(Token::Lt);
                        adv = 1;
                    },
                }
            },
            ' ' | '\t' | '\n' | '\r' => {
                emit = None;
                adv = 1;
            },
            other => {
                if is_can_start_ident(other) {
                    let mut k: usize = 1;
                    loop
                        invariant
                            twt.wf(),
                            twt.text@ == text,
                            i == twt.cursor as int,
                            0 <= i < text.len(),
                            1 <= k as int,
                            i + k as int <= text.len(),
                            ident_end(text, i + 1) == ident_end(text, i + k as int),
                        ensures
                            1 <= k as int,
                            i + k as int <= text.len(),
                            ident_end(text, i + 1) == i + k as int,
                        decreases text.len() - i - k as int,
                    {
                        match twt.peek(k) {
                            Some(ch2) => {
                                if is_ident(ch2) {
                                    k = k + 1;
                                } else {
                                    break;
                                }
                            },
                            None => {
                                break;
                            },
                        }
                    }
                    let sub = twt.text.substring_char(twt.cursor, twt.cursor + k);
                    match Keyword::from_ident(sub) {
                        Some(kw) => {
                            emit = Some(Token::Keyword(kw));
                        },
                        None => {
                            emit = Some(Token::Identifier(String::from_str(sub)));
                        },
                    }
                    adv = k;
                } else {
                    proof {
                        lemma_step_reject(text, i);
                    }
                    return Err(TokenizeError { character: other, offset: twt.cursor });
                }
            },
        }
        proof {
            let p = token_views(token_list@);
            match &emit {
                Some(tok) => {
                    lemma_step_emit(text, i, tok@, adv as int);
                    lemma_prepend_tokens_assoc(
                        p,
                        seq![tok@],
                        spec_tokenize_from(text, i + adv as int),
                    );
                    lemma_token_views_push(token_list@, *tok);
                },
                None => {
                    lemma_step_skip(text, i);
                },
            }
        }
        match emit {
            Some(tok) => {
                token_list.push(tok);
            },
            None => {},
        }
        twt.step(adv);
    }
    proof {
        lemma_token_views_push(token_list@, Token::EOF);
    }
    token_list.push(Token::EOF);
    Ok(token_list)
}

} // verus!
