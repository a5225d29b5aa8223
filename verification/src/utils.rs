//! Helpers on SQL text given as strings.

use crate::sql::pattern::{is_sql_pattern_match, sql_pattern_matches};
use crate::sql::token::{
    is_blank, lex, lexed, model_of, print_token, token_model, token_text, well_quoted,
};
use crate::text::holds_text;
use sqlparser::dialect::MySqlDialect;
use sqlparser::tokenizer::Token;
use vstd::prelude::*;

verus! {

/// Decides whether the SQL text `sql2` matches the template `pattern`. Both
/// are cut into tokens and compared without their blank tokens.
pub fn is_pattern_match(pattern: &str, sql2: &str, dialect: &MySqlDialect) -> (matched: bool)
    ensures
        matched == sql_pattern_matches(pattern@, sql2@),
{
    is_sql_pattern_match(pattern, sql2, dialect)
}

/// How a token is written in a normal form: a blank token as nothing, any
/// other as it stands in SQL.
pub open spec fn piece(t: Token) -> Seq<char> {
    if is_blank(token_model(t)) {
        Seq::empty()
    } else {
        token_text(t)
    }
}

/// Whether a text is put next to another without a space: the empty text,
/// or a period, a comma or a parenthesis alone.
pub open spec fn is_glue(s: Seq<char>) -> bool {
    s.len() == 0 || s == seq!['.'] || s == seq![','] || s == seq!['('] || s == seq![')']
}

/// Two texts put together: with one space between them, and with none
/// where either is glue.
pub open spec fn glue(a: Seq<char>, b: Seq<char>) -> Seq<char> {
    if is_glue(a) || is_glue(b) {
        a + b
    } else {
        a + seq![' '] + b
    }
}

/// The pieces of a list of tokens put together from the left, each piece to
/// the text made so far; `None` for the empty list.
pub open spec fn folded(tokens: Seq<Token>) -> Option<Seq<char>>
    decreases tokens.len(),
{
    if tokens.len() == 0 {
        None
    } else {
        match folded(tokens.drop_last()) {
            None => Some(piece(tokens.last())),
            Some(acc) => Some(glue(acc, piece(tokens.last()))),
        }
    }
}

/// The normal form of a SQL text that can be cut into tokens: its tokens
/// without blank space and comments, with one space in front of each but a
/// period, a comma and a parenthesis. A text without tokens stays as it is.
pub open spec fn normal_form(sql: Seq<char>) -> Seq<char>
    recommends
        lexed(sql) is Some,
{
    match folded(lexed(sql).unwrap()) {
        Some(text) => text,
        None => sql,
    }
}

/// Tests for glue.
fn check_glue(s: &str) -> (b: bool)
    ensures
        b == is_glue(s@),
{
    proof {
        reveal_strlit("");
        reveal_strlit(".");
        reveal_strlit(",");
        reveal_strlit("(");
        reveal_strlit(")");
        assert(s@.len() == 0 <==> s@ =~= ""@);
        assert("."@ =~= seq!['.']);
        assert(","@ =~= seq![',']);
        assert("("@ =~= seq!['(']);
        assert(")"@ =~= seq![')']);
    }
    str_equal(s, "") || str_equal(s, ".") || str_equal(s, ",") || str_equal(s, "(") || str_equal(
        s,
        ")",
    )
}

/// Compares two texts.
fn str_equal(a: &str, b: &str) -> (r: bool)
    ensures
        r == (a@ == b@),
{
    let x = a.to_owned();
    let y = b.to_owned();
    x == y
}

/// Writes the tokens out in normal form.
fn fold_tokens(tokens: &Vec<Token>) -> (r: Option<String>)
    requires
        forall|i: int| 0 <= i < tokens@.len() ==> well_quoted(#[trigger] tokens@[i]),
    ensures
        holds_text(r, folded(tokens@)),
{
    let mut acc: Option<String> = None;
    let mut i: usize = 0;
    assert(tokens@.take(0) =~= Seq::<Token>::empty());
    while i < tokens.len()
        invariant
            i <= tokens@.len(),
            forall|i: int| 0 <= i < tokens@.len() ==> well_quoted(#[trigger] tokens@[i]),
            holds_text(acc, folded(tokens@.take(i as int))),
        decreases tokens@.len() - i,
    {
        proof {
            let next = tokens@.take(i + 1);
            assert(next.drop_last() =~= tokens@.take(i as int));
            assert(next.last() == tokens@[i as int]);
        }
        let model = model_of(&tokens[i]);
        let text = if model.is_blank() {
            String::new()
        } else {
            print_token(&tokens[i])
        };
        acc = match acc {
            None => Some(text),
            Some(a) => {
                let mut joined = a;
                if check_glue(joined.as_str()) || check_glue(text.as_str()) {
                    joined.append(text.as_str());
                } else {
                    proof {
                        reveal_strlit(" ");
                        assert(" "@ =~= seq![' ']);
                    }
                    joined.append(" ");
                    joined.append(text.as_str());
                }
                Some(joined)
            },
        };
        i = i + 1;
    }
    assert(tokens@.take(i as int) =~= tokens@);
    acc
}

/// Writes a SQL text in normal form. The text has to be one that the
/// tokenizer accepts.
pub fn normally(dialect: &MySqlDialect, sql: &str) -> (text: String)
    requires
        lexed(sql@) is Some,
    ensures
        text@ == normal_form(sql@),
{
    match lex(dialect, sql) {
        Some(tokens) => match fold_tokens(&tokens) {
            Some(text) => text,
            None => sql.to_owned(),
        },
        None => sql.to_owned(),
    }
}

/// Writes a SQL text in normal form, or `None` where the tokenizer does not
/// accept it.
pub fn try_normally(dialect: &MySqlDialect, sql: &str) -> (r: Option<String>)
    ensures
        r is Some <==> lexed(sql@) is Some,
        r matches Some(text) ==> text@ == normal_form(sql@),
{
    match lex(dialect, sql) {
        Some(_) => Some(normally(dialect, sql)),
        None => None,
    }
}

} // verus!
