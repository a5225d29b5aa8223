//! The token model that the pattern matcher works on, and the lexer behind it.
//!
//! Lexing itself is done by `sqlparser`'s MySQL-dialect tokenizer. Its tokens
//! are opaque here; each is turned into a [`SqlToken`], which keeps what the
//! matcher reads: the kind of the token and its text.

use crate::text::uppercased;
use sqlparser::dialect::MySqlDialect;
use sqlparser::tokenizer::{Token, Tokenizer};
use vstd::prelude::*;

verus! {

/// `sqlparser::dialect::MySqlDialect`, the dialect that every text is lexed
/// and parsed in. Nothing is known of a value of it.
#[verifier::external_type_specification]
#[verifier::external_body]
pub struct ExMySqlDialect(MySqlDialect);

/// `sqlparser::tokenizer::Token`. Nothing is known of a value of it but what
/// `token_model` and `token_text` name.
#[verifier::external_type_specification]
#[verifier::external_body]
pub struct ExToken(Token);

/// One lexical token of a SQL text.
#[derive(Debug, Clone, PartialEq, Eq)]
pub enum SqlToken {
    /// A keyword or an identifier, without its quotes.
    Word(String),
    /// An unsigned numeric literal, and whether it carries the `L` suffix.
    Number(String, bool),
    /// A character that could not be tokenized.
    Char(char),
    /// `'...'`, without the quotes.
    SingleQuotedString(String),
    /// `N'...'`, without prefix and quotes.
    NationalStringLiteral(String),
    /// `E'...'`, without prefix and quotes.
    EscapedStringLiteral(String),
    /// `X'...'`, without prefix and quotes.
    HexStringLiteral(String),
    /// A prepared-statement placeholder such as `?`.
    Placeholder(String),
    /// Blank space or a comment.
    Whitespace,
    /// The end-of-input marker.
    Eof,
    /// Punctuation, an operator, or any other token, as it is written.
    Other(String),
}

/// The tokens that the tokenizer cuts a SQL text into, or `None` where it
/// reports an error (an unterminated string literal, for one).
pub uninterp spec fn lexed(sql: Seq<char>) -> Option<Seq<Token>>;

/// What the matcher reads of a token: its kind and its text.
pub uninterp spec fn token_model(t: Token) -> SqlToken;

/// How a token is written in SQL.
pub uninterp spec fn token_text(t: Token) -> Seq<char>;

/// Whether a token can be written out: a word has no quote, or one of the
/// three quotes that `Display` knows. `Display` panics on a word with any
/// other quote.
pub uninterp spec fn well_quoted(t: Token) -> bool;

/// Trusted: `Display` for `sqlparser::tokenizer::Token` writes a token as it
/// stands in SQL; `token_text` names the text. Tokens on which `Display`
/// panics, words with a quote that it does not know, are left out.
#[verifier::external_body]
pub(crate) fn print_token(t: &Token) -> (text: String)
    requires
        well_quoted(*t),
    ensures
        text@ == token_text(*t),
{
    t.to_string()
}

/// Trusted: `sqlparser::tokenizer::Tokenizer::tokenize`, for the MySQL
/// dialect, is a function of the text alone: the same text always gives the
/// same tokens or the same failure, and `lexed` names them. Every word that
/// it makes is unquoted or quoted by a back quote, the one quote of the
/// dialect, so every token that it makes can be written out.
#[verifier::external_body]
pub(crate) fn lex(dialect: &MySqlDialect, sql: &str) -> (r: Option<Vec<Token>>)
    ensures
        r is Some <==> lexed(sql@) is Some,
        r matches Some(tokens) ==> tokens@ == lexed(sql@).unwrap(),
        r matches Some(tokens) ==> forall|i: int|
            0 <= i < tokens@.len() ==> well_quoted(#[trigger] tokens@[i]),
{
    Tokenizer::new(dialect, sql).tokenize().ok()
}

/// Trusted: reads the variant and the fields of a `sqlparser::tokenizer::Token`.
/// A word gives its value without quotes, a literal its contents, and every
/// kind that the matcher does not tell apart gives `Other` with the token as
/// `Display` writes it. `token_model` names the result.
#[verifier::external_body]
pub(crate) fn model_of(t: &Token) -> (r: SqlToken)
    ensures
        r == token_model(*t),
{
    match t.clone() {
        Token::EOF => SqlToken::Eof,
        Token::Whitespace(_) => SqlToken::Whitespace,
        Token::Word(w) => SqlToken::Word(w.value),
        Token::Number(s, long) => SqlToken::Number(s, long),
        Token::Char(c) => SqlToken::Char(c),
        Token::SingleQuotedString(s) => SqlToken::SingleQuotedString(s),
        Token::NationalStringLiteral(s) => SqlToken::NationalStringLiteral(s),
        Token::EscapedStringLiteral(s) => SqlToken::EscapedStringLiteral(s),
        Token::HexStringLiteral(s) => SqlToken::HexStringLiteral(s),
        Token::Placeholder(s) => SqlToken::Placeholder(s),
        other => SqlToken::Other(other.to_string()),
    }
}

/// Whether a token is blank: white space, a comment, or the end marker.
pub open spec fn is_blank(t: SqlToken) -> bool {
    t is Whitespace || t is Eof
}

/// A token sequence without its blank tokens.
pub open spec fn trimmed(tokens: Seq<SqlToken>) -> Seq<SqlToken>
    decreases tokens.len(),
{
    if tokens.len() == 0 {
        Seq::empty()
    } else if is_blank(tokens.last()) {
        trimmed(tokens.drop_last())
    } else {
        trimmed(tokens.drop_last()).push(tokens.last())
    }
}

/// The token models of a SQL text, or `None` where the tokenizer fails.
pub open spec fn sql_tokens(sql: Seq<char>) -> Option<Seq<SqlToken>> {
    match lexed(sql) {
        Some(tokens) => Some(tokens.map_values(|t: Token| token_model(t))),
        None => None,
    }
}

impl SqlToken {
    /// Whether the token is white space, a comment, or the end marker.
    pub fn is_blank(&self) -> (b: bool)
        ensures
            b == is_blank(*self),
    {
        match self {
            SqlToken::Whitespace => true,
            SqlToken::Eof => true,
            _ => false,
        }
    }

    /// A copy of the token.
    pub fn duplicate(&self) -> (r: SqlToken)
        ensures
            r == *self,
    {
        match self {
            SqlToken::Word(s) => SqlToken::Word(s.clone()),
            SqlToken::Number(s, long) => SqlToken::Number(s.clone(), *long),
            SqlToken::Char(c) => SqlToken::Char(*c),
            SqlToken::SingleQuotedString(s) => SqlToken::SingleQuotedString(s.clone()),
            SqlToken::NationalStringLiteral(s) => SqlToken::NationalStringLiteral(s.clone()),
            SqlToken::EscapedStringLiteral(s) => SqlToken::EscapedStringLiteral(s.clone()),
            SqlToken::HexStringLiteral(s) => SqlToken::HexStringLiteral(s.clone()),
            SqlToken::Placeholder(s) => SqlToken::Placeholder(s.clone()),
            SqlToken::Whitespace => SqlToken::Whitespace,
            SqlToken::Eof => SqlToken::Eof,
            SqlToken::Other(s) => SqlToken::Other(s.clone()),
        }
    }
}

/// Cuts a SQL text into tokens. `None` where the tokenizer reports an error.
pub fn tokenize(dialect: &MySqlDialect, sql: &str) -> (r: Option<Vec<SqlToken>>)
    ensures
        r is Some <==> sql_tokens(sql@) is Some,
        r matches Some(tokens) ==> tokens@ == sql_tokens(sql@).unwrap(),
{
    match lex(dialect, sql) {
        None => None,
        Some(raw) => {
            let mut tokens: Vec<SqlToken> = Vec::new();
            let mut i: usize = 0;
            while i < raw.len()
                invariant
                    i <= raw@.len(),
                    tokens@ == raw@.take(i as int).map_values(|t: Token| token_model(t)),
                decreases raw@.len() - i,
            {
                tokens.push(model_of(&raw[i]));
                i = i + 1;
                assert(tokens@ =~= raw@.take(i as int).map_values(|t: Token| token_model(t)));
            }
            assert(raw@.take(i as int) =~= raw@);
            Some(tokens)
        },
    }
}

/// Whether a token is the given keyword: a word that reads as the keyword
/// when put in upper case.
pub open spec fn is_keyword(t: SqlToken, keyword: Seq<char>) -> bool {
    t matches SqlToken::Word(value) && uppercased(value@) == keyword
}

/// Drops white space, comments and the end marker from a token sequence.
pub fn trim_tokens(tokens: Vec<SqlToken>) -> (r: Vec<SqlToken>)
    ensures
        r@ == trimmed(tokens@),
{
    let mut out: Vec<SqlToken> = Vec::new();
    let mut i: usize = 0;
    while i < tokens.len()
        invariant
            i <= tokens@.len(),
            out@ == trimmed(tokens@.take(i as int)),
        decreases tokens@.len() - i,
    {
        assert(tokens@.take(i + 1).drop_last() =~= tokens@.take(i as int));
        if !tokens[i].is_blank() {
            out.push(tokens[i].duplicate());
        }
        i = i + 1;
    }
    assert(tokens@.take(i as int) =~= tokens@);
    out
}

/// Trimming leaves no blank token, keeps every other token, and changes
/// nothing where there is no blank token.
pub proof fn lemma_trimmed_has_no_blank(tokens: Seq<SqlToken>)
    ensures
        forall|i: int| 0 <= i < trimmed(tokens).len() ==> !is_blank(#[trigger] trimmed(tokens)[i]),
        trimmed(tokens).len() <= tokens.len(),
        (forall|i: int| 0 <= i < tokens.len() ==> !is_blank(#[trigger] tokens[i])) ==> trimmed(
            tokens,
        ) == tokens,
    decreases tokens.len(),
{
    if tokens.len() > 0 {
        lemma_trimmed_has_no_blank(tokens.drop_last());
        if forall|i: int| 0 <= i < tokens.len() ==> !is_blank(#[trigger] tokens[i]) {
            assert forall|i: int| 0 <= i < tokens.drop_last().len() implies !is_blank(
                #[trigger] tokens.drop_last()[i],
            ) by {
                assert(tokens.drop_last()[i] == tokens[i]);
            }
            assert(trimmed(tokens) =~= tokens);
        }
    } else {
        assert(trimmed(tokens) =~= tokens);
    }
}

/// Trimming twice is trimming once.
pub proof fn lemma_trimmed_idempotent(tokens: Seq<SqlToken>)
    ensures
        trimmed(trimmed(tokens)) == trimmed(tokens),
{
    lemma_trimmed_has_no_blank(tokens);
    lemma_trimmed_has_no_blank(trimmed(tokens));
}

} // verus!
