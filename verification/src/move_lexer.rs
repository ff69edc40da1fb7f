//! The lexer of Move source text, for the tokens of the grammar:
//! whitespace and comments are skipped, identifiers and keywords, block
//! labels, decimal and hexadecimal numbers (with an optional integer-type
//! suffix), and operators by longest match.
use vstd::prelude::*;
use vstd::string::StringSliceAdditionalSpecFns;
use crate::move_parser::{binop_of, binop_symbol, is_binop_token, Tok, Token, Tokens, Exp, ParseError, spec_exp, peek, unexpected, Expected, spec_file, Definitions, Diags};

verus! {

/// Where lexing failed, and why.
#[derive(Clone, Copy, Debug, PartialEq, Eq, Structural)]
pub enum LexError {
    /// A byte that starts no token.
    InvalidCharacter { pos: usize },
    /// A `/*` comment that is never closed.
    UnclosedComment { pos: usize },
}

pub open spec fn is_ident_start(c: u8) -> bool {
    (97 <= c <= 122) || (65 <= c <= 90) || c == 95
}

pub open spec fn is_digit(c: u8) -> bool {
    48 <= c <= 57
}

pub open spec fn is_hex_digit(c: u8) -> bool {
    is_digit(c) || (97 <= c <= 102) || (65 <= c <= 70)
}

pub open spec fn is_ident_continue(c: u8) -> bool {
    is_ident_start(c) || is_digit(c)
}

pub open spec fn is_whitespace(c: u8) -> bool {
    c == 32 || c == 9 || c == 10 || c == 13
}

/// The end of the identifier characters from `i` on.
pub open spec fn ident_end(s: Seq<u8>, i: int) -> int
    decreases s.len() - i,
{
    if 0 <= i < s.len() && is_ident_continue(s[i]) {
        ident_end(s, i + 1)
    } else {
        i
    }
}

/// The end of the digits (hexadecimal ones when `hex`) and underscores from
/// `i` on.
pub open spec fn digits_end(s: Seq<u8>, i: int, hex: bool) -> int
    decreases s.len() - i,
{
    if 0 <= i < s.len() && (s[i] == 95 || (if hex {
        is_hex_digit(s[i])
    } else {
        is_digit(s[i])
    })) {
        digits_end(s, i + 1, hex)
    } else {
        i
    }
}

/// The position of the line feed that ends the line at `i`, or the end.
pub open spec fn line_end(s: Seq<u8>, i: int) -> int
    decreases s.len() - i,
{
    if 0 <= i < s.len() && s[i] != 10 {
        line_end(s, i + 1)
    } else {
        i
    }
}

/// The position after the first `*/` from `i` on, if there is one.
pub open spec fn comment_close(s: Seq<u8>, i: int) -> Option<int>
    decreases s.len() - i,
{
    if i < 0 || i + 1 >= s.len() {
        None
    } else if s[i] == 42 && s[i + 1] == 47 {
        Some(i + 2)
    } else {
        comment_close(s, i + 1)
    }
}

/// The position of the next token after whitespace and comments from `i`.
pub open spec fn skip_trivia(s: Seq<u8>, i: int) -> Result<int, LexError>
    decreases s.len() - i,
{
    if i < 0 || i >= s.len() {
        Ok(i)
    } else if is_whitespace(s[i]) {
        skip_trivia(s, i + 1)
    } else if s[i] == 47 && i + 1 < s.len() && s[i + 1] == 47 {
        let k = line_end(s, i + 2);
        if i < k <= s.len() {
            skip_trivia(s, k)
        } else {
            Ok(i)
        }
    } else if s[i] == 47 && i + 1 < s.len() && s[i + 1] == 42 {
        match comment_close(s, i + 2) {
            None => Err(LexError::UnclosedComment { pos: i as usize }),
            Some(k) => if i < k <= s.len() {
                skip_trivia(s, k)
            } else {
                Ok(i)
            },
        }
    } else {
        Ok(i)
    }
}

/// The byte at `i`, or 0 past the end.
pub open spec fn at(s: Seq<u8>, i: int) -> u8 {
    if 0 <= i < s.len() {
        s[i]
    } else {
        0
    }
}

/// The end of a number whose digits end at `e`: an integer-type suffix
/// (`u8`, `u16`, `u32`, `u64`, `u128`, `u256`) makes it a typed number.
pub open spec fn number_with_suffix(s: Seq<u8>, e: int) -> (Tok, int) {
    if at(s, e) == 117 && at(s, e + 1) == 56 {
        (Tok::NumTypedValue, e + 2)
    } else if at(s, e) == 117 && ((at(s, e + 1) == 54 && at(s, e + 2) == 52) || (at(s, e + 1)
        == 49 && at(s, e + 2) == 54) || (at(s, e + 1) == 51 && at(s, e + 2) == 50)) {
        (Tok::NumTypedValue, e + 3)
    } else if at(s, e) == 117 && ((at(s, e + 1) == 49 && at(s, e + 2) == 50 && at(s, e + 3) == 56)
        || (at(s, e + 1) == 50 && at(s, e + 2) == 53 && at(s, e + 3) == 54)) {
        (Tok::NumTypedValue, e + 4)
    } else {
        (Tok::NumValue, e)
    }
}
/// The keyword (or contextual word) an identifier spells, or `Identifier`.
#[verifier::opaque]
pub open spec fn keyword_of(text: Seq<u8>) -> Tok {
    if text.len() == 3 && text[0] == 108u8 && text[1] == 101u8 && text[2] == 116u8 {
        Tok::Let
    } else if text.len() == 2 && text[0] == 105u8 && text[1] == 102u8 {
        Tok::If
    } else if text.len() == 4 && text[0] == 101u8 && text[1] == 108u8 && text[2] == 115u8 && text[3] == 101u8 {
        Tok::Else
    } else if text.len() == 5 && text[0] == 119u8 && text[1] == 104u8 && text[2] == 105u8 && text[3] == 108u8 && text[4] == 101u8 {
        Tok::While
    } else if text.len() == 4 && text[0] == 108u8 && text[1] == 111u8 && text[2] == 111u8 && text[3] == 112u8 {
        Tok::Loop
    } else if text.len() == 6 && text[0] == 114u8 && text[1] == 101u8 && text[2] == 116u8 && text[3] == 117u8 && text[4] == 114u8 && text[5] == 110u8 {
        Tok::Return
    } else if text.len() == 5 && text[0] == 97u8 && text[1] == 98u8 && text[2] == 111u8 && text[3] == 114u8 && text[4] == 116u8 {
        Tok::Abort
    } else if text.len() == 5 && text[0] == 98u8 && text[1] == 114u8 && text[2] == 101u8 && text[3] == 97u8 && text[4] == 107u8 {
        Tok::Break
    } else if text.len() == 8 && text[0] == 99u8 && text[1] == 111u8 && text[2] == 110u8 && text[3] == 116u8 && text[4] == 105u8 && text[5] == 110u8 && text[6] == 117u8 && text[7] == 101u8 {
        Tok::Continue
    } else if text.len() == 4 && text[0] == 116u8 && text[1] == 114u8 && text[2] == 117u8 && text[3] == 101u8 {
        Tok::True
    } else if text.len() == 5 && text[0] == 102u8 && text[1] == 97u8 && text[2] == 108u8 && text[3] == 115u8 && text[4] == 101u8 {
        Tok::False
    } else if text.len() == 4 && text[0] == 99u8 && text[1] == 111u8 && text[2] == 112u8 && text[3] == 121u8 {
        Tok::Copy
    } else if text.len() == 4 && text[0] == 109u8 && text[1] == 111u8 && text[2] == 118u8 && text[3] == 101u8 {
        Tok::Move
    } else if text.len() == 3 && text[0] == 109u8 && text[1] == 117u8 && text[2] == 116u8 {
        Tok::Mut
    } else if text.len() == 6 && text[0] == 102u8 && text[1] == 111u8 && text[2] == 114u8 && text[3] == 97u8 && text[4] == 108u8 && text[5] == 108u8 {
        Tok::Forall
    } else if text.len() == 6 && text[0] == 101u8 && text[1] == 120u8 && text[2] == 105u8 && text[3] == 115u8 && text[4] == 116u8 && text[5] == 115u8 {
        Tok::Exists
    } else if text.len() == 6 && text[0] == 99u8 && text[1] == 104u8 && text[2] == 111u8 && text[3] == 111u8 && text[4] == 115u8 && text[5] == 101u8 {
        Tok::Choose
    } else if text.len() == 3 && text[0] == 109u8 && text[1] == 105u8 && text[2] == 110u8 {
        Tok::Min
    } else if text.len() == 5 && text[0] == 119u8 && text[1] == 104u8 && text[2] == 101u8 && text[3] == 114u8 && text[4] == 101u8 {
        Tok::Where
    } else if text.len() == 2 && text[0] == 105u8 && text[1] == 110u8 {
        Tok::In
    } else if text.len() == 2 && text[0] == 97u8 && text[1] == 115u8 {
        Tok::As
    } else if text.len() == 6 && text[0] == 109u8 && text[1] == 111u8 && text[2] == 100u8 && text[3] == 117u8 && text[4] == 108u8 && text[5] == 101u8 {
        Tok::Module
    } else if text.len() == 4 && text[0] == 115u8 && text[1] == 112u8 && text[2] == 101u8 && text[3] == 99u8 {
        Tok::Spec
    } else if text.len() == 3 && text[0] == 102u8 && text[1] == 117u8 && text[2] == 110u8 {
        Tok::Fun
    } else if text.len() == 5 && text[0] == 99u8 && text[1] == 111u8 && text[2] == 110u8 && text[3] == 115u8 && text[4] == 116u8 {
        Tok::Const
    } else if text.len() == 6 && text[0] == 115u8 && text[1] == 116u8 && text[2] == 114u8 && text[3] == 117u8 && text[4] == 99u8 && text[5] == 116u8 {
        Tok::Struct
    } else if text.len() == 3 && text[0] == 117u8 && text[1] == 115u8 && text[2] == 101u8 {
        Tok::Use
    } else if text.len() == 6 && text[0] == 102u8 && text[1] == 114u8 && text[2] == 105u8 && text[3] == 101u8 && text[4] == 110u8 && text[5] == 100u8 {
        Tok::Friend
    } else if text.len() == 6 && text[0] == 112u8 && text[1] == 117u8 && text[2] == 98u8 && text[3] == 108u8 && text[4] == 105u8 && text[5] == 99u8 {
        Tok::Public
    } else if text.len() == 6 && text[0] == 110u8 && text[1] == 97u8 && text[2] == 116u8 && text[3] == 105u8 && text[4] == 118u8 && text[5] == 101u8 {
        Tok::Native
    } else if text.len() == 9 && text[0] == 105u8 && text[1] == 110u8 && text[2] == 118u8 && text[3] == 97u8 && text[4] == 114u8 && text[5] == 105u8 && text[6] == 97u8 && text[7] == 110u8 && text[8] == 116u8 {
        Tok::Invariant
    } else if text.len() == 8 && text[0] == 97u8 && text[1] == 99u8 && text[2] == 113u8 && text[3] == 117u8 && text[4] == 105u8 && text[5] == 114u8 && text[6] == 101u8 && text[7] == 115u8 {
        Tok::Acquires
    } else if text.len() == 3 && text[0] == 102u8 && text[1] == 111u8 && text[2] == 114u8 {
        Tok::For
    } else if text.len() == 4 && text[0] == 101u8 && text[1] == 110u8 && text[2] == 117u8 && text[3] == 109u8 {
        Tok::Enum
    } else if text.len() == 5 && text[0] == 109u8 && text[1] == 97u8 && text[2] == 116u8 && text[3] == 99u8 && text[4] == 104u8 {
        Tok::Match
    } else if text.len() == 4 && text[0] == 116u8 && text[1] == 121u8 && text[2] == 112u8 && text[3] == 101u8 {
        Tok::Type
    } else if text.len() == 5 && text[0] == 101u8 && text[1] == 110u8 && text[2] == 116u8 && text[3] == 114u8 && text[4] == 121u8 {
        Tok::Entry
    } else if text.len() == 5 && text[0] == 109u8 && text[1] == 97u8 && text[2] == 99u8 && text[3] == 114u8 && text[4] == 111u8 {
        Tok::Macro
    } else if text.len() == 3 && text[0] == 104u8 && text[1] == 97u8 && text[2] == 115u8 {
        Tok::Has
    } else if text.len() == 7 && text[0] == 112u8 && text[1] == 104u8 && text[2] == 97u8 && text[3] == 110u8 && text[4] == 116u8 && text[5] == 111u8 && text[6] == 109u8 {
        Tok::Phantom
    } else if text.len() == 7 && text[0] == 97u8 && text[1] == 100u8 && text[2] == 100u8 && text[3] == 114u8 && text[4] == 101u8 && text[5] == 115u8 && text[6] == 115u8 {
        Tok::Address
    } else if text.len() == 4 && text[0] == 100u8 && text[1] == 114u8 && text[2] == 111u8 && text[3] == 112u8 {
        Tok::Drop
    } else if text.len() == 5 && text[0] == 115u8 && text[1] == 116u8 && text[2] == 111u8 && text[3] == 114u8 && text[4] == 101u8 {
        Tok::Store
    } else if text.len() == 3 && text[0] == 107u8 && text[1] == 101u8 && text[2] == 121u8 {
        Tok::Key
    } else if text.len() == 7 && text[0] == 112u8 && text[1] == 97u8 && text[2] == 99u8 && text[3] == 107u8 && text[4] == 97u8 && text[5] == 103u8 && text[6] == 101u8 {
        Tok::Package
    } else if text.len() == 6 && text[0] == 118u8 && text[1] == 101u8 && text[2] == 99u8 && text[3] == 116u8 && text[4] == 111u8 && text[5] == 114u8 {
        Tok::Vector
    } else {
        Tok::Identifier
    }
}

/// The token at `j` and where it ends, or `None` when no token starts there.
pub open spec fn next_token(s: Seq<u8>, j: int) -> Option<(Tok, int)> {
    let c = at(s, j);
    let c1 = at(s, j + 1);
    let c2 = at(s, j + 2);
    let c3 = at(s, j + 3);
    if (c == 98 || c == 120) && c1 == 34 {
        match string_end(s, j + 2, c == 98) {
            Some(e) => Some((Tok::ByteStringValue, e)),
            None => None,
        }
    } else if is_ident_start(c) {
        let e = ident_end(s, j + 1);
        Some((keyword_of(s.subrange(j, e)), e))
    } else if c == 39 {
        if is_ident_start(c1) {
            Some((Tok::BlockLabel, ident_end(s, j + 2)))
        } else {
            None
        }
    } else if is_digit(c) {
        if c == 48 && c1 == 120 && is_hex_digit(c2) {
            Some(number_with_suffix(s, digits_end(s, j + 2, true)))
        } else {
            Some(number_with_suffix(s, digits_end(s, j + 1, false)))
        }
    } else if c == 40 {
        Some((Tok::LParen, j + 1))
    } else if c == 41 {
        Some((Tok::RParen, j + 1))
    } else if c == 123 {
        Some((Tok::LBrace, j + 1))
    } else if c == 125 {
        Some((Tok::RBrace, j + 1))
    } else if c == 44 {
        Some((Tok::Comma, j + 1))
    } else if c == 59 {
        Some((Tok::Semicolon, j + 1))
    } else if c == 58 {
        if c1 == 58 {
            Some((Tok::ColonColon, j + 2))
        } else {
            Some((Tok::Colon, j + 1))
        }
    } else if c == 94 {
        Some((Tok::Caret, j + 1))
    } else if c == 37 {
        Some((Tok::Percent, j + 1))
    } else if c == 43 {
        Some((Tok::Plus, j + 1))
    } else if c == 45 {
        if c1 == 62 {
            Some((Tok::MinusGreater, j + 2))
        } else {
            Some((Tok::Minus, j + 1))
        }
    } else if c == 35 {
        Some((Tok::NumSign, j + 1))
    } else if c == 64 {
        Some((Tok::AtSign, j + 1))
    } else if c == 91 {
        Some((Tok::LBracket, j + 1))
    } else if c == 93 {
        Some((Tok::RBracket, j + 1))
    } else if c == 42 {
        Some((Tok::Star, j + 1))
    } else if c == 47 {
        Some((Tok::Slash, j + 1))
    } else if c == 61 {
        if c1 == 61 && c2 == 62 {
            Some((Tok::EqualEqualGreater, j + 3))
        } else if c1 == 61 {
            Some((Tok::EqualEqual, j + 2))
        } else {
            Some((Tok::Equal, j + 1))
        }
    } else if c == 33 {
        if c1 == 61 {
            Some((Tok::ExclaimEqual, j + 2))
        } else {
            Some((Tok::Exclaim, j + 1))
        }
    } else if c == 38 {
        if c1 == 38 {
            Some((Tok::AmpAmp, j + 2))
        } else {
            Some((Tok::Amp, j + 1))
        }
    } else if c == 124 {
        if c1 == 124 {
            Some((Tok::PipePipe, j + 2))
        } else {
            Some((Tok::Pipe, j + 1))
        }
    } else if c == 60 {
        if c1 == 61 && c2 == 61 && c3 == 62 {
            Some((Tok::LessEqualEqualGreater, j + 4))
        } else if c1 == 61 {
            Some((Tok::LessEqual, j + 2))
        } else if c1 == 60 {
            Some((Tok::LessLess, j + 2))
        } else {
            Some((Tok::Less, j + 1))
        }
    } else if c == 62 {
        if c1 == 61 {
            Some((Tok::GreaterEqual, j + 2))
        } else if c1 == 62 {
            Some((Tok::GreaterGreater, j + 2))
        } else {
            Some((Tok::Greater, j + 1))
        }
    } else if c == 46 {
        if c1 == 46 {
            Some((Tok::PeriodPeriod, j + 2))
        } else {
            Some((Tok::Period, j + 1))
        }
    } else {
        None
    }
}

/// The position after the closing `"` of a byte string whose contents start
/// at `i`; with `escapes`, a backslash takes the byte after it along.
pub open spec fn string_end(s: Seq<u8>, i: int, escapes: bool) -> Option<int>
    decreases s.len() + 2 - i,
{
    if i < 0 || i >= s.len() {
        None
    } else if s[i] == 34 {
        Some(i + 1)
    } else if escapes && s[i] == 92 {
        string_end(s, i + 2, escapes)
    } else {
        string_end(s, i + 1, escapes)
    }
}

/// Prepends tokens to a lexing result.
pub open spec fn prepend(prefix: Seq<Token>, r: Result<Seq<Token>, LexError>) -> Result<
    Seq<Token>,
    LexError,
> {
    match r {
        Ok(t) => Ok(prefix + t),
        Err(e) => Err(e),
    }
}

/// The tokens of the source from `i` on.
pub open spec fn lex_from(s: Seq<u8>, i: int) -> Result<Seq<Token>, LexError>
    decreases s.len() - i,
{
    match skip_trivia(s, i) {
        Err(e) => Err(e),
        Ok(j) => if j >= s.len() || j < i || j < 0 {
            Ok(Seq::empty())
        } else {
            match next_token(s, j) {
                None => Err(LexError::InvalidCharacter { pos: j as usize }),
                Some((t, e)) => if e <= j || e > s.len() {
                    Err(LexError::InvalidCharacter { pos: j as usize })
                } else {
                    prepend(
                        seq![Token { tok: t, start: j as usize, end: e as usize }],
                        lex_from(s, e),
                    )
                },
            }
        },
    }
}

/// What reading a whole source as one expression gives: its tokens, followed
/// by the end-of-file token at the end of the source, parsed as an
/// expression that must take every token.
pub open spec fn spec_parse_exp_string(s: Seq<u8>) -> Result<Exp, SyntaxError> {
    match lex_from(s, 0) {
        Err(e) => Err(SyntaxError::Lex(e)),
        Ok(toks) => {
            let ts = toks.push(Token { tok: Tok::EOF, start: s.len() as usize, end: s.len() as usize });
            let (r, p) = spec_exp(ts, 0);
            match r {
                Err(e) => Err(SyntaxError::Parse(e)),
                Ok(e) => if peek(ts, p) == Tok::EOF {
                    Ok(e)
                } else {
                    Err(SyntaxError::Parse(unexpected(ts, p, Expected::Token(Tok::EOF))))
                },
            }
        },
    }
}

/// A lexing or a parsing error.
#[derive(Clone, Copy, Debug, PartialEq, Eq, Structural)]
pub enum SyntaxError {
    Lex(LexError),
    Parse(ParseError),
}
#[verifier::rlimit(60)]
fn keyword_at(s: &[u8], j: usize, k: usize) -> (r: Tok)
    requires
        j + k <= s@.len(),
    ensures
        r == keyword_of(s@.subrange(j as int, (j + k) as int)),
{
    let ghost text = s@.subrange(j as int, (j + k) as int);
    assert(forall|n: int| 0 <= n < k ==> text[n] == s@[j + n]);
    reveal(keyword_of);
    let r = if k == 3 && s[j + 0] == 108u8 && s[j + 1] == 101u8 && s[j + 2] == 116u8 {
        Tok::Let
    } else if k == 2 && s[j + 0] == 105u8 && s[j + 1] == 102u8 {
        Tok::If
    } else if k == 4 && s[j + 0] == 101u8 && s[j + 1] == 108u8 && s[j + 2] == 115u8 && s[j + 3] == 101u8 {
        Tok::Else
    } else if k == 5 && s[j + 0] == 119u8 && s[j + 1] == 104u8 && s[j + 2] == 105u8 && s[j + 3] == 108u8 && s[j + 4] == 101u8 {
        Tok::While
    } else if k == 4 && s[j + 0] == 108u8 && s[j + 1] == 111u8 && s[j + 2] == 111u8 && s[j + 3] == 112u8 {
        Tok::Loop
    } else if k == 6 && s[j + 0] == 114u8 && s[j + 1] == 101u8 && s[j + 2] == 116u8 && s[j + 3] == 117u8 && s[j + 4] == 114u8 && s[j + 5] == 110u8 {
        Tok::Return
    } else if k == 5 && s[j + 0] == 97u8 && s[j + 1] == 98u8 && s[j + 2] == 111u8 && s[j + 3] == 114u8 && s[j + 4] == 116u8 {
        Tok::Abort
    } else if k == 5 && s[j + 0] == 98u8 && s[j + 1] == 114u8 && s[j + 2] == 101u8 && s[j + 3] == 97u8 && s[j + 4] == 107u8 {
        Tok::Break
    } else if k == 8 && s[j + 0] == 99u8 && s[j + 1] == 111u8 && s[j + 2] == 110u8 && s[j + 3] == 116u8 && s[j + 4] == 105u8 && s[j + 5] == 110u8 && s[j + 6] == 117u8 && s[j + 7] == 101u8 {
        Tok::Continue
    } else if k == 4 && s[j + 0] == 116u8 && s[j + 1] == 114u8 && s[j + 2] == 117u8 && s[j + 3] == 101u8 {
        Tok::True
    } else if k == 5 && s[j + 0] == 102u8 && s[j + 1] == 97u8 && s[j + 2] == 108u8 && s[j + 3] == 115u8 && s[j + 4] == 101u8 {
        Tok::False
    } else if k == 4 && s[j + 0] == 99u8 && s[j + 1] == 111u8 && s[j + 2] == 112u8 && s[j + 3] == 121u8 {
        Tok::Copy
    } else if k == 4 && s[j + 0] == 109u8 && s[j + 1] == 111u8 && s[j + 2] == 118u8 && s[j + 3] == 101u8 {
        Tok::Move
    } else if k == 3 && s[j + 0] == 109u8 && s[j + 1] == 117u8 && s[j + 2] == 116u8 {
        Tok::Mut
    } else if k == 6 && s[j + 0] == 102u8 && s[j + 1] == 111u8 && s[j + 2] == 114u8 && s[j + 3] == 97u8 && s[j + 4] == 108u8 && s[j + 5] == 108u8 {
        Tok::Forall
    } else if k == 6 && s[j + 0] == 101u8 && s[j + 1] == 120u8 && s[j + 2] == 105u8 && s[j + 3] == 115u8 && s[j + 4] == 116u8 && s[j + 5] == 115u8 {
        Tok::Exists
    } else if k == 6 && s[j + 0] == 99u8 && s[j + 1] == 104u8 && s[j + 2] == 111u8 && s[j + 3] == 111u8 && s[j + 4] == 115u8 && s[j + 5] == 101u8 {
        Tok::Choose
    } else if k == 3 && s[j + 0] == 109u8 && s[j + 1] == 105u8 && s[j + 2] == 110u8 {
        Tok::Min
    } else if k == 5 && s[j + 0] == 119u8 && s[j + 1] == 104u8 && s[j + 2] == 101u8 && s[j + 3] == 114u8 && s[j + 4] == 101u8 {
        Tok::Where
    } else if k == 2 && s[j + 0] == 105u8 && s[j + 1] == 110u8 {
        Tok::In
    } else if k == 2 && s[j + 0] == 97u8 && s[j + 1] == 115u8 {
        Tok::As
    } else if k == 6 && s[j + 0] == 109u8 && s[j + 1] == 111u8 && s[j + 2] == 100u8 && s[j + 3] == 117u8 && s[j + 4] == 108u8 && s[j + 5] == 101u8 {
        Tok::Module
    } else if k == 4 && s[j + 0] == 115u8 && s[j + 1] == 112u8 && s[j + 2] == 101u8 && s[j + 3] == 99u8 {
        Tok::Spec
    } else if k == 3 && s[j + 0] == 102u8 && s[j + 1] == 117u8 && s[j + 2] == 110u8 {
        Tok::Fun
    } else if k == 5 && s[j + 0] == 99u8 && s[j + 1] == 111u8 && s[j + 2] == 110u8 && s[j + 3] == 115u8 && s[j + 4] == 116u8 {
        Tok::Const
    } else if k == 6 && s[j + 0] == 115u8 && s[j + 1] == 116u8 && s[j + 2] == 114u8 && s[j + 3] == 117u8 && s[j + 4] == 99u8 && s[j + 5] == 116u8 {
        Tok::Struct
    } else if k == 3 && s[j + 0] == 117u8 && s[j + 1] == 115u8 && s[j + 2] == 101u8 {
        Tok::Use
    } else if k == 6 && s[j + 0] == 102u8 && s[j + 1] == 114u8 && s[j + 2] == 105u8 && s[j + 3] == 101u8 && s[j + 4] == 110u8 && s[j + 5] == 100u8 {
        Tok::Friend
    } else if k == 6 && s[j + 0] == 112u8 && s[j + 1] == 117u8 && s[j + 2] == 98u8 && s[j + 3] == 108u8 && s[j + 4] == 105u8 && s[j + 5] == 99u8 {
        Tok::Public
    } else if k == 6 && s[j + 0] == 110u8 && s[j + 1] == 97u8 && s[j + 2] == 116u8 && s[j + 3] == 105u8 && s[j + 4] == 118u8 && s[j + 5] == 101u8 {
        Tok::Native
    } else if k == 9 && s[j + 0] == 105u8 && s[j + 1] == 110u8 && s[j + 2] == 118u8 && s[j + 3] == 97u8 && s[j + 4] == 114u8 && s[j + 5] == 105u8 && s[j + 6] == 97u8 && s[j + 7] == 110u8 && s[j + 8] == 116u8 {
        Tok::Invariant
    } else if k == 8 && s[j + 0] == 97u8 && s[j + 1] == 99u8 && s[j + 2] == 113u8 && s[j + 3] == 117u8 && s[j + 4] == 105u8 && s[j + 5] == 114u8 && s[j + 6] == 101u8 && s[j + 7] == 115u8 {
        Tok::Acquires
    } else if k == 3 && s[j + 0] == 102u8 && s[j + 1] == 111u8 && s[j + 2] == 114u8 {
        Tok::For
    } else if k == 4 && s[j + 0] == 101u8 && s[j + 1] == 110u8 && s[j + 2] == 117u8 && s[j + 3] == 109u8 {
        Tok::Enum
    } else if k == 5 && s[j + 0] == 109u8 && s[j + 1] == 97u8 && s[j + 2] == 116u8 && s[j + 3] == 99u8 && s[j + 4] == 104u8 {
        Tok::Match
    } else if k == 4 && s[j + 0] == 116u8 && s[j + 1] == 121u8 && s[j + 2] == 112u8 && s[j + 3] == 101u8 {
        Tok::Type
    } else if k == 5 && s[j + 0] == 101u8 && s[j + 1] == 110u8 && s[j + 2] == 116u8 && s[j + 3] == 114u8 && s[j + 4] == 121u8 {
        Tok::Entry
    } else if k == 5 && s[j + 0] == 109u8 && s[j + 1] == 97u8 && s[j + 2] == 99u8 && s[j + 3] == 114u8 && s[j + 4] == 111u8 {
        Tok::Macro
    } else if k == 3 && s[j + 0] == 104u8 && s[j + 1] == 97u8 && s[j + 2] == 115u8 {
        Tok::Has
    } else if k == 7 && s[j + 0] == 112u8 && s[j + 1] == 104u8 && s[j + 2] == 97u8 && s[j + 3] == 110u8 && s[j + 4] == 116u8 && s[j + 5] == 111u8 && s[j + 6] == 109u8 {
        Tok::Phantom
    } else if k == 7 && s[j + 0] == 97u8 && s[j + 1] == 100u8 && s[j + 2] == 100u8 && s[j + 3] == 114u8 && s[j + 4] == 101u8 && s[j + 5] == 115u8 && s[j + 6] == 115u8 {
        Tok::Address
    } else if k == 4 && s[j + 0] == 100u8 && s[j + 1] == 114u8 && s[j + 2] == 111u8 && s[j + 3] == 112u8 {
        Tok::Drop
    } else if k == 5 && s[j + 0] == 115u8 && s[j + 1] == 116u8 && s[j + 2] == 111u8 && s[j + 3] == 114u8 && s[j + 4] == 101u8 {
        Tok::Store
    } else if k == 3 && s[j + 0] == 107u8 && s[j + 1] == 101u8 && s[j + 2] == 121u8 {
        Tok::Key
    } else if k == 7 && s[j + 0] == 112u8 && s[j + 1] == 97u8 && s[j + 2] == 99u8 && s[j + 3] == 107u8 && s[j + 4] == 97u8 && s[j + 5] == 103u8 && s[j + 6] == 101u8 {
        Tok::Package
    } else if k == 6 && s[j + 0] == 118u8 && s[j + 1] == 101u8 && s[j + 2] == 99u8 && s[j + 3] == 116u8 && s[j + 4] == 111u8 && s[j + 5] == 114u8 {
        Tok::Vector
    } else {
        Tok::Identifier
    };
    r
}

fn is_ident_start_exec(c: u8) -> (r: bool)
    ensures
        r == is_ident_start(c),
{
    (97 <= c && c <= 122) || (65 <= c && c <= 90) || c == 95
}

fn is_digit_exec(c: u8) -> (r: bool)
    ensures
        r == is_digit(c),
{
    48 <= c && c <= 57
}

fn is_hex_digit_exec(c: u8) -> (r: bool)
    ensures
        r == is_hex_digit(c),
{
    is_digit_exec(c) || (97 <= c && c <= 102) || (65 <= c && c <= 70)
}

fn at_exec(s: &[u8], i: usize, d: usize) -> (r: u8)
    ensures
        r == at(s@, i + d),
{
    if i < s.len() && d < s.len() - i {
        s[i + d]
    } else {
        0
    }
}

fn ident_end_exec(s: &[u8], i: usize) -> (r: usize)
    requires
        i <= s@.len(),
    ensures
        r == ident_end(s@, i as int),
        i <= r <= s@.len(),
{
    let mut k = i;
    while k < s.len() && (is_ident_start_exec(s[k]) || is_digit_exec(s[k]))
        invariant
            i <= k <= s@.len(),
            ident_end(s@, k as int) == ident_end(s@, i as int),
        decreases s@.len() - k,
    {
        k = k + 1;
    }
    k
}

fn is_number_char(c: u8, hex: bool) -> (r: bool)
    ensures
        r == (c == 95 || (if hex {
            is_hex_digit(c)
        } else {
            is_digit(c)
        })),
{
    c == 95 || (if hex {
        is_hex_digit_exec(c)
    } else {
        is_digit_exec(c)
    })
}

fn digits_end_exec(s: &[u8], i: usize, hex: bool) -> (r: usize)
    requires
        i <= s@.len(),
    ensures
        r == digits_end(s@, i as int, hex),
        i <= r <= s@.len(),
{
    let mut k = i;
    while k < s.len() && is_number_char(s[k], hex)
        invariant
            i <= k <= s@.len(),
            digits_end(s@, k as int, hex) == digits_end(s@, i as int, hex),
        decreases s@.len() - k,
    {
        k = k + 1;
    }
    k
}

fn line_end_exec(s: &[u8], i: usize) -> (r: usize)
    requires
        i <= s@.len(),
    ensures
        r == line_end(s@, i as int),
        i <= r <= s@.len(),
{
    let mut k = i;
    while k < s.len() && s[k] != 10
        invariant
            i <= k <= s@.len(),
            line_end(s@, k as int) == line_end(s@, i as int),
        decreases s@.len() - k,
    {
        k = k + 1;
    }
    k
}

fn comment_close_exec(s: &[u8], i: usize) -> (r: Option<usize>)
    requires
        i <= s@.len(),
    ensures
        r matches Some(k) ==> comment_close(s@, i as int) == Some(k as int) && i + 2 <= k <= s@.len(),
        r is None ==> comment_close(s@, i as int) is None,
{
    let mut k = i;
    while s.len() > 0 && k < s.len() - 1
        invariant
            i <= k <= s@.len(),
            comment_close(s@, k as int) == comment_close(s@, i as int),
        decreases s@.len() - k,
    {
        if s[k] == 42 && s[k + 1] == 47 {
            return Some(k + 2);
        }
        k = k + 1;
    }
    None
}

fn skip_trivia_exec(s: &[u8], i: usize) -> (r: Result<usize, LexError>)
    requires
        i <= s@.len(),
    ensures
        r matches Ok(j) ==> skip_trivia(s@, i as int) == Ok::<int, LexError>(j as int) && i <= j
            <= s@.len(),
        r matches Err(e) ==> skip_trivia(s@, i as int) == Err::<int, LexError>(e),
{
    let mut k = i;
    while k < s.len()
        invariant
            i <= k <= s@.len(),
            skip_trivia(s@, k as int) == skip_trivia(s@, i as int),
        decreases s@.len() - k,
    {
        let c = s[k];
        if c == 32 || c == 9 || c == 10 || c == 13 {
            k = k + 1;
        } else if c == 47 && k + 1 < s.len() && s[k + 1] == 47 {
            k = line_end_exec(s, k + 2);
        } else if c == 47 && k + 1 < s.len() && s[k + 1] == 42 {
            match comment_close_exec(s, k + 2) {
                None => {
                    return Err(LexError::UnclosedComment { pos: k });
                },
                Some(e) => {
                    k = e;
                },
            }
        } else {
            return Ok(k);
        }
    }
    Ok(k)
}

fn string_end_exec(s: &[u8], i: usize, escapes: bool) -> (r: Option<usize>)
    requires
        i <= s@.len() + 1,
    ensures
        r matches Some(e) ==> string_end(s@, i as int, escapes) == Some(e as int) && i < e <= s@.len(),
        r is None ==> string_end(s@, i as int, escapes) is None,
{
    let n = s.len();
    if i > n {
        return None;
    }
    let mut k = i;
    while k < n && s[k] != 34
        invariant
            n == s@.len(),
            i <= k <= n,
            string_end(s@, k as int, escapes) == string_end(s@, i as int, escapes),
        decreases n - k,
    {
        if escapes && s[k] == 92 {
            proof {
                if k + 1 >= n {
                    assert(string_end(s@, k + 2, escapes) is None);
                    assert(string_end(s@, n as int, escapes) is None);
                }
            }
            k = if k + 1 < n {
                k + 2
            } else {
                n
            };
        } else {
            k = k + 1;
        }
    }
    if k < n {
        Some(k + 1)
    } else {
        None
    }
}

fn number_with_suffix_exec(s: &[u8], e: usize) -> (r: (Tok, usize))
    requires
        e <= s@.len(),
    ensures
        r.0 == number_with_suffix(s@, e as int).0,
        r.1 == number_with_suffix(s@, e as int).1,
        e <= r.1 <= s@.len(),
{
    let c = at_exec(s, e, 0);
    let c1 = at_exec(s, e, 1);
    let c2 = at_exec(s, e, 2);
    let c3 = at_exec(s, e, 3);
    let len = s.len();
    proof {
        assert(len == s@.len());
        assert(c1 != 0 ==> e + 1 < s@.len());
        assert(c2 != 0 ==> e + 2 < s@.len());
        assert(c3 != 0 ==> e + 3 < s@.len());
    }
    if c == 117 && c1 == 56 {
        (Tok::NumTypedValue, e + 2)
    } else if c == 117 && ((c1 == 54 && c2 == 52) || (c1 == 49 && c2 == 54) || (c1 == 51 && c2
        == 50)) {
        (Tok::NumTypedValue, e + 3)
    } else if c == 117 && ((c1 == 49 && c2 == 50 && c3 == 56) || (c1 == 50 && c2 == 53 && c3
        == 54)) {
        (Tok::NumTypedValue, e + 4)
    } else {
        (Tok::NumValue, e)
    }
}

fn next_token_exec(s: &[u8], j: usize) -> (r: Option<(Tok, usize)>)
    requires
        j < s@.len(),
    ensures
        r matches Some((t, e)) ==> next_token(s@, j as int) == Some((t, e as int)) && j < e
            <= s@.len(),
        r is None ==> next_token(s@, j as int) is None,
{
    let c = s[j];
    let c1 = at_exec(s, j, 1);
    let c2 = at_exec(s, j, 2);
    let c3 = at_exec(s, j, 3);
    if (c == 98 || c == 120) && c1 == 34 {
        match string_end_exec(s, j + 2, c == 98) {
            Some(e) => Some((Tok::ByteStringValue, e)),
            None => None,
        }
    } else if is_ident_start_exec(c) {
        let e = ident_end_exec(s, j + 1);
        Some((keyword_at(s, j, e - j), e))
    } else if c == 39 {
        if is_ident_start_exec(c1) {
            Some((Tok::BlockLabel, ident_end_exec(s, j + 2)))
        } else {
            None
        }
    } else if is_digit_exec(c) {
        if c == 48 && c1 == 120 && is_hex_digit_exec(c2) {
            Some(number_with_suffix_exec(s, digits_end_exec(s, j + 2, true)))
        } else {
            Some(number_with_suffix_exec(s, digits_end_exec(s, j + 1, false)))
        }
    } else if c == 40 {
        Some((Tok::LParen, j + 1))
    } else if c == 41 {
        Some((Tok::RParen, j + 1))
    } else if c == 123 {
        Some((Tok::LBrace, j + 1))
    } else if c == 125 {
        Some((Tok::RBrace, j + 1))
    } else if c == 44 {
        Some((Tok::Comma, j + 1))
    } else if c == 59 {
        Some((Tok::Semicolon, j + 1))
    } else if c == 58 {
        if c1 == 58 {
            Some((Tok::ColonColon, j + 2))
        } else {
            Some((Tok::Colon, j + 1))
        }
    } else if c == 94 {
        Some((Tok::Caret, j + 1))
    } else if c == 37 {
        Some((Tok::Percent, j + 1))
    } else if c == 43 {
        Some((Tok::Plus, j + 1))
    } else if c == 45 {
        if c1 == 62 {
            Some((Tok::MinusGreater, j + 2))
        } else {
            Some((Tok::Minus, j + 1))
        }
    } else if c == 35 {
        Some((Tok::NumSign, j + 1))
    } else if c == 64 {
        Some((Tok::AtSign, j + 1))
    } else if c == 91 {
        Some((Tok::LBracket, j + 1))
    } else if c == 93 {
        Some((Tok::RBracket, j + 1))
    } else if c == 42 {
        Some((Tok::Star, j + 1))
    } else if c == 47 {
        Some((Tok::Slash, j + 1))
    } else if c == 61 {
        if c1 == 61 && c2 == 62 {
            Some((Tok::EqualEqualGreater, j + 3))
        } else if c1 == 61 {
            Some((Tok::EqualEqual, j + 2))
        } else {
            Some((Tok::Equal, j + 1))
        }
    } else if c == 33 {
        if c1 == 61 {
            Some((Tok::ExclaimEqual, j + 2))
        } else {
            Some((Tok::Exclaim, j + 1))
        }
    } else if c == 38 {
        if c1 == 38 {
            Some((Tok::AmpAmp, j + 2))
        } else {
            Some((Tok::Amp, j + 1))
        }
    } else if c == 124 {
        if c1 == 124 {
            Some((Tok::PipePipe, j + 2))
        } else {
            Some((Tok::Pipe, j + 1))
        }
    } else if c == 60 {
        if c1 == 61 && c2 == 61 && c3 == 62 {
            Some((Tok::LessEqualEqualGreater, j + 4))
        } else if c1 == 61 {
            Some((Tok::LessEqual, j + 2))
        } else if c1 == 60 {
            Some((Tok::LessLess, j + 2))
        } else {
            Some((Tok::Less, j + 1))
        }
    } else if c == 62 {
        if c1 == 61 {
            Some((Tok::GreaterEqual, j + 2))
        } else if c1 == 62 {
            Some((Tok::GreaterGreater, j + 2))
        } else {
            Some((Tok::Greater, j + 1))
        }
    } else if c == 46 {
        if c1 == 46 {
            Some((Tok::PeriodPeriod, j + 2))
        } else {
            Some((Tok::Period, j + 1))
        }
    } else {
        None
    }
}

/// The tokens of a Move source, each with its byte span, without the final
/// end-of-file token; or the first lexing error.
pub fn lex(s: &[u8]) -> (r: Result<Vec<Token>, LexError>)
    ensures
        r matches Ok(v) ==> lex_from(s@, 0) == Ok::<Seq<Token>, LexError>(v@),
        r matches Err(e) ==> lex_from(s@, 0) == Err::<Seq<Token>, LexError>(e),
{
    let mut out: Vec<Token> = Vec::new();
    let mut i: usize = 0;
    proof {
        assert(Seq::<Token>::empty() + lex_from(s@, 0)->Ok_0 =~= lex_from(s@, 0)->Ok_0);
    }
    loop
        invariant
            i <= s@.len(),
            lex_from(s@, 0) == prepend(out@, lex_from(s@, i as int)),
        decreases s@.len() - i,
    {
        match skip_trivia_exec(s, i) {
            Err(e) => {
                return Err(e);
            },
            Ok(j) => {
                if j >= s.len() {
                    proof {
                        assert(out@ + Seq::<Token>::empty() =~= out@);
                    }
                    return Ok(out);
                }
                match next_token_exec(s, j) {
                    None => {
                        return Err(LexError::InvalidCharacter { pos: j });
                    },
                    Some((t, e)) => {
                        let tok = Token { tok: t, start: j, end: e };
                        proof {
                            let rest = lex_from(s@, e as int);
                            if rest is Ok {
                                assert(out@.push(tok) + rest->Ok_0 =~= out@ + (seq![tok]
                                    + rest->Ok_0));
                            }
                        }
                        out.push(tok);
                        i = e;
                    },
                }
            },
        }
    }
}

/// Reads a whole Move source as one expression: lexes it, then parses the
/// tokens, which the expression must take to the end.
pub fn parse_exp_string(input: &[u8]) -> (r: Result<Exp, SyntaxError>)
    ensures
        r == spec_parse_exp_string(input@),
{
    let toks = match lex(input) {
        Err(e) => {
            return Err(SyntaxError::Lex(e));
        },
        Ok(v) => v,
    };
    let mut stream = Tokens::new(toks, input.len());
    match crate::move_parser::parse_exp(&mut stream) {
        Err(e) => Err(SyntaxError::Parse(e)),
        Ok(e) => if stream.peek() == Tok::EOF {
            Ok(e)
        } else {
            Err(SyntaxError::Parse(stream.error_here(Expected::Token(Tok::EOF))))
        },
    }
}

/// What parsing a whole Move source file gives: its tokens, followed by the
/// end-of-file token, parsed as definitions with the reports made on the
/// way; a lexing error fails the file.
pub open spec fn spec_parse_file_string(s: Seq<u8>) -> Result<(Definitions, Diags), SyntaxError> {
    match lex_from(s, 0) {
        Err(e) => Err(SyntaxError::Lex(e)),
        Ok(toks) => {
            let ts = toks.push(Token { tok: Tok::EOF, start: s.len() as usize, end: s.len() as usize });
            match spec_file(ts, 0).0 {
                Ok(r) => Ok(r),
                Err(e) => Err(SyntaxError::Parse(e)),
            }
        },
    }
}

/// Parses a Move source file into its definitions, with the reports of the
/// definitions that failed (parsing resumed after each at the next `module`
/// or `spec`).
pub fn parse_file_string(input: &str) -> (r: Result<(Definitions, Diags), SyntaxError>)
    ensures
        r == spec_parse_file_string(input.spec_bytes()),
{
    let bytes = input.as_bytes();
    let toks = match lex(bytes) {
        Err(e) => {
            return Err(SyntaxError::Lex(e));
        },
        Ok(v) => v,
    };
    let mut stream = Tokens::new(toks, bytes.len());
    match crate::move_parser::parse_file(&mut stream) {
        Ok(r) => Ok(r),
        Err(e) => Err(SyntaxError::Parse(e)),
    }
}
/// Each binary-operator token stands for the operator that its text spells:
/// lexing the operator's written form gives back exactly that token, so `^`
/// is exclusive or, `|` bitwise or, and so on.
pub proof fn binop_token_spells_its_operator(t: Tok)
    requires
        is_binop_token(t),
    ensures
        next_token(binop_symbol(binop_of(t)), 0) == Some((t, binop_symbol(binop_of(t)).len() as int)),
        lex_from(binop_symbol(binop_of(t)), 0) == Ok::<Seq<Token>, LexError>(
            seq![Token { tok: t, start: 0, end: binop_symbol(binop_of(t)).len() as usize }],
        ),
{
    let s = binop_symbol(binop_of(t));
    assert(s.len() >= 1);
    assert(!is_whitespace(s[0]));
    assert(at(s, 0) == s[0]);
    assert(at(s, 1) == if s.len() > 1 { s[1] } else { 0u8 });
    assert(at(s, 2) == if s.len() > 2 { s[2] } else { 0u8 });
    assert(at(s, 3) == if s.len() > 3 { s[3] } else { 0u8 });
    reveal_with_fuel(skip_trivia, 2);
    reveal_with_fuel(lex_from, 2);
}

/// Different binary-operator tokens stand for different operators.
pub proof fn binop_tokens_denote_distinct_operators(t1: Tok, t2: Tok)
    requires
        is_binop_token(t1),
        is_binop_token(t2),
        t1 != t2,
    ensures
        binop_of(t1) != binop_of(t2),
{
    binop_token_spells_its_operator(t1);
    binop_token_spells_its_operator(t2);
}

} // verus!
