//! The pattern matcher: does a concrete SQL text match a rule's template, in
//! which `?` placeholders stand for literal values?

use crate::sql::token::{sql_tokens, tokenize, trim_tokens, trimmed, SqlToken};
use sqlparser::dialect::MySqlDialect;
use vstd::prelude::*;

verus! {

/// Whether two tokens at the same position agree.
///
/// A placeholder on either side agrees with anything. Words and literals
/// agree when their text is equal, number literals when the `L` suffix agrees
/// too. Escaped string literals and blank tokens agree with their own kind.
/// Anything else agrees when it is written the same.
pub open spec fn token_matches(a: SqlToken, b: SqlToken) -> bool {
    if a is Placeholder || b is Placeholder {
        true
    } else {
        match (a, b) {
            (SqlToken::Word(x), SqlToken::Word(y)) => x@ == y@,
            (SqlToken::Number(x, l), SqlToken::Number(y, m)) => x@ == y@ && l == m,
            (SqlToken::Char(x), SqlToken::Char(y)) => x == y,
            (SqlToken::SingleQuotedString(x), SqlToken::SingleQuotedString(y)) => x@ == y@,
            (SqlToken::NationalStringLiteral(x), SqlToken::NationalStringLiteral(y)) => x@ == y@,
            (SqlToken::EscapedStringLiteral(_), SqlToken::EscapedStringLiteral(_)) => true,
            (SqlToken::HexStringLiteral(x), SqlToken::HexStringLiteral(y)) => x@ == y@,
            (SqlToken::Whitespace, SqlToken::Whitespace) => true,
            (SqlToken::Eof, SqlToken::Eof) => true,
            (SqlToken::Other(x), SqlToken::Other(y)) => x@ == y@,
            _ => false,
        }
    }
}

/// Whether two token sequences match: equal length, and agreement at every
/// position.
pub open spec fn tokens_match(template: Seq<SqlToken>, concrete: Seq<SqlToken>) -> bool {
    &&& template.len() == concrete.len()
    &&& forall|i: int| 0 <= i < template.len() ==> token_matches(#[trigger] template[i], concrete[i])
}

/// Whether a SQL text matches a template given by its tokens. Blank tokens
/// count on neither side. A text that cannot be tokenized matches nothing.
pub open spec fn pattern_matches(template: Seq<SqlToken>, sql: Seq<char>) -> bool {
    match sql_tokens(sql) {
        Some(tokens) => tokens_match(trimmed(template), trimmed(tokens)),
        None => false,
    }
}

/// Whether a SQL text matches a template given as text. A template that
/// cannot be tokenized counts as the empty template.
pub open spec fn sql_pattern_matches(pattern: Seq<char>, sql: Seq<char>) -> bool {
    match sql_tokens(pattern) {
        Some(template) => pattern_matches(template, sql),
        None => pattern_matches(Seq::empty(), sql),
    }
}

/// Compares two tokens at the same position.
pub fn token_match(a: &SqlToken, b: &SqlToken) -> (same: bool)
    ensures
        same == token_matches(*a, *b),
{
    match (a, b) {
        (SqlToken::Placeholder(_), _) => true,
        (_, SqlToken::Placeholder(_)) => true,
        (SqlToken::Word(x), SqlToken::Word(y)) => *x == *y,
        (SqlToken::Number(x, l), SqlToken::Number(y, m)) => *x == *y && *l == *m,
        (SqlToken::Char(x), SqlToken::Char(y)) => *x == *y,
        (SqlToken::SingleQuotedString(x), SqlToken::SingleQuotedString(y)) => *x == *y,
        (SqlToken::NationalStringLiteral(x), SqlToken::NationalStringLiteral(y)) => *x == *y,
        (SqlToken::EscapedStringLiteral(_), SqlToken::EscapedStringLiteral(_)) => true,
        (SqlToken::HexStringLiteral(x), SqlToken::HexStringLiteral(y)) => *x == *y,
        (SqlToken::Whitespace, SqlToken::Whitespace) => true,
        (SqlToken::Eof, SqlToken::Eof) => true,
        (SqlToken::Other(x), SqlToken::Other(y)) => *x == *y,
        _ => false,
    }
}

/// Compares two token sequences position by position.
pub fn match_tokens(template: &Vec<SqlToken>, concrete: &Vec<SqlToken>) -> (matched: bool)
    ensures
        matched == tokens_match(template@, concrete@),
{
    if template.len() != concrete.len() {
        return false;
    }
    let mut index: usize = 0;
    while index < template.len()
        invariant
            template@.len() == concrete@.len(),
            index <= template@.len(),
            forall|i: int| 0 <= i < index ==> token_matches(#[trigger] template@[i], concrete@[i]),
        decreases template@.len() - index,
    {
        if !token_match(&template[index], &concrete[index]) {
            return false;
        }
        index = index + 1;
    }
    true
}

/// Compares a template with the tokens of a SQL text from which the blank
/// tokens have been dropped already.
pub fn match_template(template: &Vec<SqlToken>, concrete: &Vec<SqlToken>) -> (matched: bool)
    ensures
        matched == tokens_match(trimmed(template@), concrete@),
{
    let template = trimmed_copy(template);
    match_tokens(&template, concrete)
}

/// A copy of a token sequence without its blank tokens.
fn trimmed_copy(tokens: &Vec<SqlToken>) -> (r: Vec<SqlToken>)
    ensures
        r@ == trimmed(tokens@),
{
    let mut out: Vec<SqlToken> = Vec::new();
    let mut i: usize = 0;
    while i < tokens.len()
        invariant
            i <= tokens@.len(),
            out@ == trimmed(tokens@.take(i as int)),
        decreases tokens@.len() - i,
    {
        assert(tokens@.take(i + 1).drop_last() =~= tokens@.take(i as int));
        if !tokens[i].is_blank() {
            out.push(tokens[i].duplicate());
        }
        i = i + 1;
    }
    assert(tokens@.take(i as int) =~= tokens@);
    out
}

/// Decides whether the SQL text `sql2` matches the template whose tokens are
/// `tokens1`.
pub fn is_pattern_match(tokens1: &Vec<SqlToken>, sql2: &str, dialect: &MySqlDialect) -> (matched:
    bool)
    ensures
        matched == pattern_matches(tokens1@, sql2@),
{
    match tokenize(dialect, sql2) {
        None => false,
        Some(tokens) => {
            let tokens2 = trim_tokens(tokens);
            let template = trimmed_copy(tokens1);
            match_tokens(&template, &tokens2)
        },
    }
}

/// Decides whether the SQL text `sql2` matches the template `pattern`.
pub fn is_sql_pattern_match(pattern: &str, sql2: &str, dialect: &MySqlDialect) -> (matched: bool)
    ensures
        matched == sql_pattern_matches(pattern@, sql2@),
{
    let tokens1 = match tokenize(dialect, pattern) {
        Some(tokens) => tokens,
        None => Vec::new(),
    };
    is_pattern_match(&tokens1, sql2, dialect)
}

/// Every token agrees with itself, and agreement does not depend on which
/// of the two tokens is named first.
pub proof fn lemma_token_matches_reflexive_symmetric(a: SqlToken, b: SqlToken)
    ensures
        token_matches(a, a),
        token_matches(a, b) == token_matches(b, a),
{
}

/// Every token sequence matches itself.
pub proof fn lemma_tokens_match_reflexive(tokens: Seq<SqlToken>)
    ensures
        tokens_match(tokens, tokens),
{
    assert forall|i: int| 0 <= i < tokens.len() implies token_matches(
        #[trigger] tokens[i],
        tokens[i],
    ) by {
        lemma_token_matches_reflexive_symmetric(tokens[i], tokens[i]);
    }
}

/// A template made from a token sequence by putting placeholders in the
/// place of some of its tokens matches that sequence.
pub proof fn lemma_placeholders_generalize(template: Seq<SqlToken>, concrete: Seq<SqlToken>)
    requires
        template.len() == concrete.len(),
        forall|i: int|
            0 <= i < template.len() ==> (#[trigger] template[i]) is Placeholder || template[i]
                == concrete[i],
    ensures
        tokens_match(template, concrete),
{
    assert forall|i: int| 0 <= i < template.len() implies token_matches(
        #[trigger] template[i],
        concrete[i],
    ) by {
        lemma_token_matches_reflexive_symmetric(concrete[i], concrete[i]);
    }
}

/// A template does not match a sequence of another length, nor one that
/// disagrees with it at some position.
pub proof fn lemma_mismatch(template: Seq<SqlToken>, concrete: Seq<SqlToken>, i: int)
    requires
        template.len() != concrete.len() || (0 <= i < template.len() && !token_matches(
            template[i],
            concrete[i],
        )),
    ensures
        !tokens_match(template, concrete),
{
}

/// A SQL text that can be cut into tokens matches itself as a template.
pub proof fn lemma_text_matches_itself(sql: Seq<char>)
    requires
        sql_tokens(sql) is Some,
    ensures
        sql_pattern_matches(sql, sql),
{
    lemma_tokens_match_reflexive(trimmed(sql_tokens(sql).unwrap()));
}

} // verus!
