//! The tokens of schema and query text.
//!
//! A text is a run of names and of the marks `{`, `}`, `:` and `!`. Blanks and
//! commas part tokens and mean nothing else. A name starts with a letter or
//! an underscore and goes on over letters, digits and underscores, as far as
//! they reach.

use vstd::prelude::*;
use vstd::string::*;
use crate::error::{CompileError, CompileFault};
use crate::text::{chars_of, slice_of};

verus! {

/// One token of a text.
#[derive(Clone, Debug, PartialEq, Eq)]
pub enum Token {
    Name(String),
    LeftBrace,
    RightBrace,
    Colon,
    Bang,
}

/// The mathematical value of a [`Token`].
pub ghost enum Lexeme {
    Name(Seq<char>),
    LeftBrace,
    RightBrace,
    Colon,
    Bang,
}

impl View for Token {
    type V = Lexeme;

    open spec fn view(&self) -> Lexeme {
        match *self {
            Token::Name(name) => Lexeme::Name(name@),
            Token::LeftBrace => Lexeme::LeftBrace,
            Token::RightBrace => Lexeme::RightBrace,
            Token::Colon => Lexeme::Colon,
            Token::Bang => Lexeme::Bang,
        }
    }
}

impl Token {
    /// The name that the token holds, if it is one.
    pub fn name(&self) -> (name: Option<&String>)
        ensures
            match self@ {
                Lexeme::Name(text) => name matches Some(n) && n@ == text,
                _ => name is None,
            },
    {
        match self {
            Token::Name(name) => Some(name),
            _ => None,
        }
    }

    /// Whether the token is `{`.
    pub fn is_left_brace(&self) -> (b: bool)
        ensures
            b == (self@ == Lexeme::LeftBrace),
    {
        match self {
            Token::LeftBrace => true,
            _ => false,
        }
    }

    /// Whether the token is `}`.
    pub fn is_right_brace(&self) -> (b: bool)
        ensures
            b == (self@ == Lexeme::RightBrace),
    {
        match self {
            Token::RightBrace => true,
            _ => false,
        }
    }

    /// Whether the token is `:`.
    pub fn is_colon(&self) -> (b: bool)
        ensures
            b == (self@ == Lexeme::Colon),
    {
        match self {
            Token::Colon => true,
            _ => false,
        }
    }

    /// Whether the token is `!`.
    pub fn is_bang(&self) -> (b: bool)
        ensures
            b == (self@ == Lexeme::Bang),
    {
        match self {
            Token::Bang => true,
            _ => false,
        }
    }
}

/// The mathematical values of a list of tokens, in order.
pub open spec fn lexemes(tokens: Seq<Token>) -> Seq<Lexeme> {
    tokens.map_values(|token: Token| token@)
}

/// Whether the character only parts tokens.
pub open spec fn is_blank(c: char) -> bool {
    c == ' ' || c == '\t' || c == '\n' || c == '\r' || c == ','
}

/// Whether a name can start with the character.
pub open spec fn is_name_start(c: char) -> bool {
    ('a' as u32 <= c as u32 <= 'z' as u32) || ('A' as u32 <= c as u32 <= 'Z' as u32) || c == '_'
}

/// Whether a name can go on with the character.
pub open spec fn is_name_part(c: char) -> bool {
    is_name_start(c) || ('0' as u32 <= c as u32 <= '9' as u32)
}

/// The mark that the character stands for, if it is one.
pub open spec fn mark_of(c: char) -> Option<Lexeme> {
    if c == '{' {
        Some(Lexeme::LeftBrace)
    } else if c == '}' {
        Some(Lexeme::RightBrace)
    } else if c == ':' {
        Some(Lexeme::Colon)
    } else if c == '!' {
        Some(Lexeme::Bang)
    } else {
        None
    }
}

/// How many characters from `from` on can go on a name.
pub open spec fn name_run(text: Seq<char>, from: int) -> nat
    decreases text.len() - from,
{
    if 0 <= from < text.len() && is_name_part(text[from]) {
        1 + name_run(text, from + 1)
    } else {
        0
    }
}

/// A run of name characters ends within the text.
pub proof fn lemma_name_run_ends(text: Seq<char>, from: int)
    requires
        0 <= from <= text.len(),
    ensures
        from + name_run(text, from) <= text.len(),
    decreases text.len() - from,
{
    if from < text.len() && is_name_part(text[from]) {
        lemma_name_run_ends(text, from + 1);
    }
}

/// `done`, followed by what is still to come, unless that fails.
pub open spec fn then_tokens(
    done: Seq<Lexeme>,
    rest: Result<Seq<Lexeme>, CompileFault>,
) -> Result<Seq<Lexeme>, CompileFault> {
    match rest {
        Ok(rest) => Ok(done + rest),
        Err(fault) => Err(fault),
    }
}

/// The tokens of `text` from position `from` on. The first character that
/// belongs to no token fails the whole text, with its position.
pub open spec fn lex_from(text: Seq<char>, from: int) -> Result<Seq<Lexeme>, CompileFault>
    decreases text.len() - from,
{
    if from < 0 || from >= text.len() {
        Ok(Seq::empty())
    } else if is_blank(text[from]) {
        lex_from(text, from + 1)
    } else if is_name_start(text[from]) {
        let end = from + 1 + name_run(text, from + 1);
        proof {
            lemma_name_run_ends(text, from + 1);
        }
        then_tokens(seq![Lexeme::Name(text.subrange(from, end))], lex_from(text, end))
    } else {
        match mark_of(text[from]) {
            Some(mark) => then_tokens(seq![mark], lex_from(text, from + 1)),
            None => Err(CompileFault::InvalidCharacter(from as nat)),
        }
    }
}

/// The tokens of a text.
pub open spec fn lex_text(text: Seq<char>) -> Result<Seq<Lexeme>, CompileFault> {
    lex_from(text, 0)
}

fn blank(c: char) -> (b: bool)
    ensures
        b == is_blank(c),
{
    c == ' ' || c == '\t' || c == '\n' || c == '\r' || c == ','
}

fn name_start(c: char) -> (b: bool)
    ensures
        b == is_name_start(c),
{
    let n = c as u32;
    ('a' as u32 <= n && n <= 'z' as u32) || ('A' as u32 <= n && n <= 'Z' as u32) || c == '_'
}

fn name_part(c: char) -> (b: bool)
    ensures
        b == is_name_part(c),
{
    let n = c as u32;
    name_start(c) || ('0' as u32 <= n && n <= '9' as u32)
}

fn mark(c: char) -> (token: Option<Token>)
    ensures
        match mark_of(c) {
            Some(lexeme) => token matches Some(t) && t@ == lexeme,
            None => token is None,
        },
{
    if c == '{' {
        Some(Token::LeftBrace)
    } else if c == '}' {
        Some(Token::RightBrace)
    } else if c == ':' {
        Some(Token::Colon)
    } else if c == '!' {
        Some(Token::Bang)
    } else {
        None
    }
}

/// Splits a text into its tokens.
pub fn lex(text: &str) -> (out: Result<Vec<Token>, CompileError>)
    ensures
        match lex_text(text@) {
            Ok(expected) => out matches Ok(tokens) && lexemes(tokens@) == expected,
            Err(fault) => out matches Err(e) && e@ == fault,
        },
{
    let chars = chars_of(text);
    let mut tokens: Vec<Token> = Vec::new();
    let mut i: usize = 0;
    assert(lex_from(text@, 0) == then_tokens(lexemes(tokens@), lex_from(text@, 0))) by {
        match lex_from(text@, 0) {
            Ok(rest) => {
                assert(lexemes(tokens@) + rest =~= rest);
            },
            Err(_) => {},
        }
    }
    while i < chars.len()
        invariant
            i <= chars.len(),
            chars@ == text@,
            lex_text(text@) == then_tokens(lexemes(tokens@), lex_from(text@, i as int)),
        decreases chars.len() - i,
    {
        let c = chars[i];
        let ghost done = lexemes(tokens@);
        if blank(c) {
            i += 1;
        } else if name_start(c) {
            let mut end: usize = i + 1;
            while end < chars.len() && name_part(chars[end])
                invariant
                    i < end <= chars.len(),
                    chars@ == text@,
                    name_run(text@, i + 1) == (end - (i + 1)) + name_run(text@, end as int),
                decreases chars.len() - end,
            {
                end += 1;
            }
            let name = slice_of(text, i, end);
            proof {
                let one = seq![Lexeme::Name(text@.subrange(i as int, end as int))];
                assert(lexemes(tokens@.push(Token::Name(name))) =~= done + one);
                match lex_from(text@, end as int) {
                    Ok(rest) => {
                        assert((done + one) + rest =~= done + (one + rest));
                    },
                    Err(_) => {},
                }
            }
            tokens.push(Token::Name(name));
            i = end;
        } else {
            match mark(c) {
                Some(token) => {
                    proof {
                        let one = seq![token@];
                        assert(lexemes(tokens@.push(token)) =~= done + one);
                        match lex_from(text@, i + 1) {
                            Ok(rest) => {
                                assert((done + one) + rest =~= done + (one + rest));
                            },
                            Err(_) => {},
                        }
                    }
                    tokens.push(token);
                    i += 1;
                },
                None => {
                    return Err(CompileError::InvalidCharacter(i));
                },
            }
        }
    }
    assert(lexemes(tokens@) + Seq::<Lexeme>::empty() =~= lexemes(tokens@));
    Ok(tokens)
}

} // verus!
