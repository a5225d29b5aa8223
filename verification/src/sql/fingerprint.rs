//! The fingerprinter: a SELECT statement with the literal operands of its
//! WHERE clause replaced by `?`, as the key under which metrics are grouped.
//!
//! Parsing and printing are `sqlparser`'s. Its syntax trees are opaque here.
//! The rewrite itself is this module's: it takes an expression apart, decides
//! what to replace, and puts it together again, through small trusted
//! functions that do no more than match on one node or build one.

use crate::sql::guard::{
    grantor_missing, lacks_grantor, nesting_depth, within_nesting, MAX_NESTING,
};
use crate::sql::token::{sql_tokens, tokenize, trim_tokens, trimmed};
use crate::text::holds_text;
use sqlparser::ast::{BinaryOperator, Expr, SetExpr, Statement, UnaryOperator, Value};
use sqlparser::dialect::MySqlDialect;
use sqlparser::parser::Parser;
use vstd::prelude::*;

verus! {

/// `sqlparser::ast::Expr`, an expression of the syntax tree. Nothing is
/// known of a value of it but its shape, which `expr_model` names.
#[verifier::external_type_specification]
#[verifier::external_body]
pub struct ExExpr(Expr);

/// `sqlparser::ast::Statement`, a parsed statement. Nothing is known of a
/// value of it but what `statement_parts` and `statement_text` name.
#[verifier::external_type_specification]
#[verifier::external_body]
pub struct ExStatement(Statement);

/// `sqlparser::ast::BinaryOperator`. Nothing is known of a value of it but
/// whether it is `AND`, which `is_and` names.
#[verifier::external_type_specification]
#[verifier::external_body]
pub struct ExBinaryOperator(BinaryOperator);

/// `sqlparser::ast::UnaryOperator`. Nothing is known of a value of it.
#[verifier::external_type_specification]
#[verifier::external_body]
pub struct ExUnaryOperator(UnaryOperator);

/// The shape of an expression, as far as the rewrite looks into it.
pub enum ExprModel {
    /// `left op right`.
    Binary { left: Box<ExprModel>, op: BinaryOperator, right: Box<ExprModel> },
    /// `expr [NOT] BETWEEN low AND high`.
    Between { expr: Box<ExprModel>, negated: bool, low: Box<ExprModel>, high: Box<ExprModel> },
    /// `op expr`.
    Unary { op: UnaryOperator, expr: Box<ExprModel> },
    /// Any other expression, taken as a whole.
    Leaf(Expr),
}

/// The top node of an expression, taken apart.
pub enum ExprParts {
    Binary { left: Expr, op: BinaryOperator, right: Expr },
    Between { expr: Expr, negated: bool, low: Expr, high: Expr },
    Unary { op: UnaryOperator, expr: Expr },
    Other(Expr),
}

/// What the fingerprinter reads of a statement.
pub enum StatementParts {
    /// Not a query.
    NotQuery,
    /// A query whose body is not a plain SELECT: a set operation, a
    /// parenthesized query, a VALUES list.
    OtherQuery,
    /// A query whose body is a plain SELECT, with its WHERE clause.
    Select { selection: Option<Expr> },
}

/// The shape of an expression.
pub uninterp spec fn expr_model(e: Expr) -> ExprModel;

/// The expression of a given shape.
pub uninterp spec fn expr_of(m: ExprModel) -> Expr;

/// Whether a binary operator is `AND`.
pub uninterp spec fn is_and(op: BinaryOperator) -> bool;

/// The placeholder expression that is written as `text`.
pub uninterp spec fn placeholder_of(text: Seq<char>) -> Expr;

/// The statements that the parser reads from a SQL text, or `None` where it
/// reports an error.
pub uninterp spec fn parsed(sql: Seq<char>) -> Option<Seq<Statement>>;

/// What the fingerprinter reads of a statement.
pub uninterp spec fn statement_parts(s: Statement) -> StatementParts;

/// A query statement with the WHERE clause of its SELECT replaced.
pub uninterp spec fn with_selection(s: Statement, selection: Option<Expr>) -> Statement;

/// A statement written out as SQL.
pub uninterp spec fn statement_text(s: Statement) -> Seq<char>;

/// Whether a statement can be written out: `Display` does not panic on it.
/// It panics on an identifier with a quote that it does not know, which no
/// parsed statement holds, and on some statements that are no queries.
pub uninterp spec fn printable(s: Statement) -> bool;

/// Whether an expression can be written out, in the same sense.
pub uninterp spec fn printable_expr(e: Expr) -> bool;

/// Whether the operands of a top node can be written out.
pub open spec fn printable_parts(p: ExprParts) -> bool {
    match p {
        ExprParts::Binary { left, op, right } => printable_expr(left) && printable_expr(right),
        ExprParts::Between { expr, negated, low, high } => printable_expr(expr) && printable_expr(
            low,
        ) && printable_expr(high),
        ExprParts::Unary { op, expr } => printable_expr(expr),
        ExprParts::Other(e) => printable_expr(e),
    }
}

/// The shape that the parts of a top node stand for.
pub open spec fn parts_model(p: ExprParts) -> ExprModel {
    match p {
        ExprParts::Binary { left, op, right } => ExprModel::Binary {
            left: Box::new(expr_model(left)),
            op,
            right: Box::new(expr_model(right)),
        },
        ExprParts::Between { expr, negated, low, high } => ExprModel::Between {
            expr: Box::new(expr_model(expr)),
            negated,
            low: Box::new(expr_model(low)),
            high: Box::new(expr_model(high)),
        },
        ExprParts::Unary { op, expr } => ExprModel::Unary { op, expr: Box::new(expr_model(expr)) },
        ExprParts::Other(e) => ExprModel::Leaf(e),
    }
}

/// Trusted: matches on the top node of a `sqlparser::ast::Expr` and moves its
/// fields out. A binary operation, a BETWEEN and a unary operation give their
/// operands; anything else comes back whole. `Display` writes such a node by
/// writing its operands, so where the node can be written out, they can.
#[verifier::external_body]
fn split_expr(e: Expr) -> (p: ExprParts)
    ensures
        expr_model(e) == parts_model(p),
        p matches ExprParts::Other(x) ==> x == e,
        printable_expr(e) ==> printable_parts(p),
{
    match e {
        Expr::BinaryOp { left, op, right } => ExprParts::Binary { left: *left, op, right: *right },
        Expr::Between { expr, negated, low, high } => {
            ExprParts::Between { expr: *expr, negated, low: *low, high: *high }
        },
        Expr::UnaryOp { op, expr } => ExprParts::Unary { op, expr: *expr },
        other => ExprParts::Other(other),
    }
}

/// Trusted: tells `sqlparser::ast::BinaryOperator::And` from the other
/// operators.
#[verifier::external_body]
fn op_is_and(op: &BinaryOperator) -> (b: bool)
    ensures
        b == is_and(*op),
{
    matches!(op, BinaryOperator::And)
}

/// Trusted: builds `sqlparser::ast::Expr::BinaryOp` from its operands.
/// `Display` writes it as the operands with the operator between them.
#[verifier::external_body]
fn make_binary(left: Expr, op: BinaryOperator, right: Expr) -> (e: Expr)
    ensures
        expr_model(e) == parts_model(ExprParts::Binary { left, op, right }),
        e == expr_of(parts_model(ExprParts::Binary { left, op, right })),
        printable_parts(ExprParts::Binary { left, op, right }) ==> printable_expr(e),
{
    Expr::BinaryOp { left: Box::new(left), op, right: Box::new(right) }
}

/// Trusted: builds `sqlparser::ast::Expr::Between` from its operands.
/// `Display` writes it as the operands with the keywords between them.
#[verifier::external_body]
fn make_between(expr: Expr, negated: bool, low: Expr, high: Expr) -> (e: Expr)
    ensures
        expr_model(e) == parts_model(ExprParts::Between { expr, negated, low, high }),
        e == expr_of(parts_model(ExprParts::Between { expr, negated, low, high })),
        printable_parts(ExprParts::Between { expr, negated, low, high }) ==> printable_expr(e),
{
    Expr::Between { expr: Box::new(expr), negated, low: Box::new(low), high: Box::new(high) }
}

/// Trusted: builds `sqlparser::ast::Expr::UnaryOp` from its operand.
/// `Display` writes it as the operator and the operand.
#[verifier::external_body]
fn make_unary(op: UnaryOperator, expr: Expr) -> (e: Expr)
    ensures
        expr_model(e) == parts_model(ExprParts::Unary { op, expr }),
        e == expr_of(parts_model(ExprParts::Unary { op, expr })),
        printable_parts(ExprParts::Unary { op, expr }) ==> printable_expr(e),
{
    Expr::UnaryOp { op, expr: Box::new(expr) }
}

/// Trusted: builds the placeholder value `sqlparser::ast::Value::Placeholder`
/// as an expression. It is none of the three kinds of node that the rewrite
/// looks into, and `Display` writes it as its text.
#[verifier::external_body]
fn make_placeholder(text: &str) -> (e: Expr)
    ensures
        e == placeholder_of(text@),
        expr_model(e) == ExprModel::Leaf(e),
        printable_expr(e),
{
    Expr::Value(Value::Placeholder(text.to_string()))
}

/// Trusted: `sqlparser::parser::Parser::parse_sql`, for the MySQL dialect, is
/// a function of the text alone; `parsed` names its result, with any error
/// as `None`. Every query that it makes can be written out; of a statement
/// of another kind that is not claimed.
///
/// The parser panics where a GRANT or a REVOKE statement has no word and no
/// string behind `GRANTED BY`; texts in which `GRANTED BY` stands so are left
/// out.
///
/// The parser descends once for each level of nesting, and counts the levels
/// of expressions, queries and statements, of which it takes 50. It does not
/// count the levels that a sign, `NOT` or `INTERVAL` in front of an operand
/// opens, nor a parenthesis round a table name, nor `ARRAY` in front of a
/// type. Texts that nest deeper than 50 levels, these counted, are left out,
/// so that no descent goes deeper than about twice what the parser itself
/// allows.
#[verifier::external_body]
fn parse_sql(dialect: &MySqlDialect, sql: &str) -> (r: Option<Vec<Statement>>)
    requires
        parsable(sql@),
    ensures
        r is Some <==> parsed(sql@) is Some,
        r matches Some(stmts) ==> stmts@ == parsed(sql@).unwrap(),
        r matches Some(stmts) ==> forall|i: int|
            0 <= i < stmts@.len() && !(statement_parts(#[trigger] stmts@[i]) is NotQuery)
                ==> printable(stmts@[i]),
{
    Parser::parse_sql(dialect, sql).ok()
}

/// Trusted: matches on a `sqlparser::ast::Statement` and, for a query, on the
/// `SetExpr` that is its body; a plain SELECT gives a copy of its WHERE
/// clause, which can be written out where the statement can.
#[verifier::external_body]
fn split_statement(s: &Statement) -> (p: StatementParts)
    ensures
        p == statement_parts(*s),
        printable(*s) ==> (p matches StatementParts::Select { selection: Some(e) }
            ==> printable_expr(e)),
{
    match s {
        Statement::Query(q) => match q.body.as_ref() {
            SetExpr::Select(select) => StatementParts::Select { selection: select.selection.clone() },
            _ => StatementParts::OtherQuery,
        },
        _ => StatementParts::NotQuery,
    }
}

/// Trusted: stores `selection` as the WHERE clause of the SELECT that is the
/// body of a query statement, and changes nothing else. What is stored reads
/// back, storing it once more changes nothing, a clause stored later takes
/// the place of this one, and the statement can still be written out where
/// it could before and the new clause can. A statement of any other kind
/// comes back as it is.
#[verifier::external_body]
fn replace_selection(s: Statement, selection: Option<Expr>) -> (r: Statement)
    ensures
        r == with_selection(s, selection),
        statement_parts(s) is Select ==> statement_parts(r) == (StatementParts::Select {
            selection,
        }),
        statement_parts(s) is Select ==> with_selection(r, selection) == r,
        !(statement_parts(s) is Select) ==> r == s,
        forall|other: Option<Expr>| #[trigger] with_selection(r, other) == with_selection(s, other),
        printable(s) && (selection matches Some(e) ==> printable_expr(e)) ==> printable(r),
{
    let mut s = s;
    if let Statement::Query(q) = &mut s {
        if let SetExpr::Select(select) = q.body.as_mut() {
            select.selection = selection;
        }
    }
    s
}

/// Trusted: `Display` for `sqlparser::ast::Statement` writes the statement
/// out as SQL; `statement_text` names the text. Statements on which it
/// panics, those with a part that the parser would not make, are left out.
#[verifier::external_body]
fn print_statement(s: &Statement) -> (text: String)
    requires
        printable(*s),
    ensures
        text@ == statement_text(*s),
{
    s.to_string()
}

/// Trusted: makes a `sqlparser::dialect::MySqlDialect`, which has no fields.
#[verifier::external_body]
pub(crate) fn mysql_dialect() -> MySqlDialect {
    MySqlDialect {}
}

/// How a placeholder is written.
pub open spec fn placeholder_mark() -> Seq<char> {
    seq!['?']
}

/// The shape of the placeholder that stands for a literal.
pub open spec fn placeholder_model() -> ExprModel {
    ExprModel::Leaf(placeholder_of(placeholder_mark()))
}

/// The rewrite, on shapes. The right operand of every binary operation but
/// `AND` becomes a placeholder, and so do both bounds of a BETWEEN. `AND` is
/// rewritten on both sides, a unary operation in its operand, the left
/// operand of a binary operation and the subject of a BETWEEN likewise.
/// Anything else stays as it is.
pub open spec fn rewrite_model(m: ExprModel) -> ExprModel
    decreases m,
{
    match m {
        ExprModel::Binary { left, op, right } => if is_and(op) {
            ExprModel::Binary {
                left: Box::new(rewrite_model(*left)),
                op,
                right: Box::new(rewrite_model(*right)),
            }
        } else {
            ExprModel::Binary {
                left: Box::new(rewrite_model(*left)),
                op,
                right: Box::new(placeholder_model()),
            }
        },
        ExprModel::Between { expr, negated, low, high } => ExprModel::Between {
            expr: Box::new(rewrite_model(*expr)),
            negated,
            low: Box::new(placeholder_model()),
            high: Box::new(placeholder_model()),
        },
        ExprModel::Unary { op, expr } => ExprModel::Unary {
            op,
            expr: Box::new(rewrite_model(*expr)),
        },
        ExprModel::Leaf(e) => ExprModel::Leaf(e),
    }
}

/// Rewriting what has been rewritten changes nothing.
pub proof fn lemma_rewrite_idempotent(m: ExprModel)
    ensures
        rewrite_model(rewrite_model(m)) == rewrite_model(m),
    decreases m,
{
    match m {
        ExprModel::Binary { left, op, right } => {
            lemma_rewrite_idempotent(*left);
            if is_and(op) {
                lemma_rewrite_idempotent(*right);
            }
        },
        ExprModel::Between { expr, negated, low, high } => {
            lemma_rewrite_idempotent(*expr);
        },
        ExprModel::Unary { op, expr } => {
            lemma_rewrite_idempotent(*expr);
        },
        ExprModel::Leaf(e) => {},
    }
}

/// The expression that the rewrite makes of `e`: `e` itself where the rewrite
/// does not look into it, and else the expression of the rewritten shape.
pub open spec fn rewritten(e: Expr) -> Expr {
    if expr_model(e) is Leaf {
        e
    } else {
        expr_of(rewrite_model(expr_model(e)))
    }
}

/// The fingerprint of one statement: none for a statement that is no query;
/// the statement as it is written for a query that is no plain SELECT; and
/// for a plain SELECT the statement written with its WHERE clause rewritten.
pub open spec fn statement_fingerprint(s: Statement) -> Option<Seq<char>> {
    match statement_parts(s) {
        StatementParts::NotQuery => None,
        StatementParts::OtherQuery => Some(statement_text(s)),
        StatementParts::Select { selection } => Some(
            statement_text(
                with_selection(
                    s,
                    match selection {
                        Some(e) => Some(rewritten(e)),
                        None => None,
                    },
                ),
            ),
        ),
    }
}

/// Whether a SQL text is handed to the parser: it can be cut into tokens,
/// every `GRANTED BY` among them has a name behind it, and they nest no
/// deeper than the parser takes.
pub open spec fn parsable(sql: Seq<char>) -> bool {
    sql_tokens(sql) matches Some(tokens) && !grantor_missing(trimmed(tokens)) && nesting_depth(
        trimmed(tokens),
    ) <= MAX_NESTING
}

/// The fingerprint of a SQL text: that of its last statement. None where the
/// text is not handed to the parser, does not parse, or holds no statement.
pub open spec fn fingerprint(sql: Seq<char>) -> Option<Seq<char>> {
    if !parsable(sql) {
        None
    } else {
        match parsed(sql) {
            None => None,
            Some(stmts) => if stmts.len() == 0 {
                None
            } else {
                statement_fingerprint(stmts.last())
            },
        }
    }
}

/// A statement with the WHERE clause of its SELECT rewritten; any other
/// statement as it is.
pub open spec fn rewritten_statement(s: Statement) -> Statement {
    match statement_parts(s) {
        StatementParts::Select { selection } => with_selection(
            s,
            match selection {
                Some(e) => Some(rewritten(e)),
                None => None,
            },
        ),
        _ => s,
    }
}

/// Whether a statement takes a WHERE clause as a record takes a field: what
/// is stored can be read back, and storing it once more changes nothing.
pub open spec fn keeps_selection(s: Statement, selection: Option<Expr>) -> bool {
    &&& statement_parts(with_selection(s, selection)) == (StatementParts::Select { selection })
    &&& with_selection(with_selection(s, selection), selection) == with_selection(s, selection)
}

/// Rewriting an expression that has been rewritten changes nothing, provided
/// the rewritten expression has the rewritten shape.
pub proof fn lemma_rewritten_idempotent(e: Expr)
    requires
        expr_model(rewritten(e)) == rewrite_model(expr_model(e)),
    ensures
        rewritten(rewritten(e)) == rewritten(e),
{
    lemma_rewrite_idempotent(expr_model(e));
}

/// The fingerprint of a rewritten statement is the fingerprint of the
/// statement itself: rewriting twice gives the same text as rewriting once.
/// This holds of a SELECT whose WHERE clause is kept as stored and whose
/// rewritten condition has the rewritten shape; that a fingerprint, parsed
/// again, gives the rewritten statement back is not part of it.
pub proof fn lemma_statement_fingerprint_stable(s: Statement)
    requires
        statement_parts(s) matches StatementParts::Select { selection } ==> keeps_selection(
            s,
            match selection {
                Some(e) => Some(rewritten(e)),
                None => None,
            },
        ),
        statement_parts(s) matches StatementParts::Select { selection: Some(e) } ==> expr_model(
            rewritten(e),
        ) == rewrite_model(expr_model(e)),
    ensures
        statement_fingerprint(rewritten_statement(s)) == statement_fingerprint(s),
{
    match statement_parts(s) {
        StatementParts::Select { selection } => {
            match selection {
                Some(e) => {
                    lemma_rewritten_idempotent(e);
                },
                None => {},
            }
        },
        _ => {},
    }
}

/// Two plain SELECTs that differ only in their WHERE clauses, and there
/// only in what the rewrite replaces, have the same fingerprint.
pub proof fn lemma_same_shape_same_fingerprint(a: Statement, b: Statement, x: Expr, y: Expr)
    requires
        statement_parts(a) == (StatementParts::Select { selection: Some(x) }),
        statement_parts(b) == (StatementParts::Select { selection: Some(y) }),
        forall|other: Option<Expr>| #[trigger] with_selection(a, other) == with_selection(b, other),
        !(expr_model(x) is Leaf),
        rewrite_model(expr_model(x)) == rewrite_model(expr_model(y)),
    ensures
        statement_fingerprint(a) == statement_fingerprint(b),
{
    assert(!(expr_model(y) is Leaf));
    assert(rewritten(x) == rewritten(y));
    assert(with_selection(a, Some(rewritten(x))) == with_selection(b, Some(rewritten(x))));
}

/// Replaces the literal operands of an expression by placeholders.
pub fn replace_expr(expr: Expr) -> (r: Expr)
    ensures
        r == rewritten(expr),
        expr_model(r) == rewrite_model(expr_model(expr)),
        printable_expr(expr) ==> printable_expr(r),
    decreases expr_model(expr),
{
    proof {
        reveal_strlit("?");
        assert("?"@ =~= placeholder_mark());
    }
    match split_expr(expr) {
        ExprParts::Binary { left, op, right } => {
            if op_is_and(&op) {
                let new_left = replace_expr(left);
                let new_right = replace_expr(right);
                make_binary(new_left, op, new_right)
            } else {
                let new_left = replace_expr(left);
                make_binary(new_left, op, make_placeholder("?"))
            }
        },
        ExprParts::Between { expr, negated, low, high } => {
            let new_expr = replace_expr(expr);
            make_between(new_expr, negated, make_placeholder("?"), make_placeholder("?"))
        },
        ExprParts::Unary { op, expr } => {
            let new_expr = replace_expr(expr);
            make_unary(op, new_expr)
        },
        ExprParts::Other(e) => e,
    }
}

/// Rewrites the WHERE clause of a statement that is a plain SELECT, and hands
/// any other statement back as it is. Rewriting what has been rewritten
/// changes nothing, so the statement that comes back has the fingerprint of
/// the statement that went in.
pub fn rewrite_statement(statement: Statement) -> (r: Statement)
    ensures
        r == rewritten_statement(statement),
        statement_fingerprint(r) == statement_fingerprint(statement),
        forall|other: Option<Expr>| #[trigger]
            with_selection(r, other) == with_selection(statement, other),
        statement_fingerprint(statement) == (match statement_parts(statement) {
            StatementParts::NotQuery => None,
            _ => Some(statement_text(r)),
        }),
        printable(statement) ==> printable(r),
{
    match split_statement(&statement) {
        StatementParts::Select { selection } => {
            let new_selection = match selection {
                Some(e) => {
                    proof {
                        lemma_rewrite_idempotent(expr_model(e));
                    }
                    Some(replace_expr(e))
                },
                None => None,
            };
            replace_selection(statement, new_selection)
        },
        _ => statement,
    }
}

/// Computes the fingerprint of one parsed statement.
pub fn fingerprint_statement(statement: Statement) -> (r: Option<String>)
    requires
        !(statement_parts(statement) is NotQuery) ==> printable(statement),
    ensures
        holds_text(r, statement_fingerprint(statement)),
{
    match split_statement(&statement) {
        StatementParts::NotQuery => None,
        _ => {
            let rewritten = rewrite_statement(statement);
            Some(print_statement(&rewritten))
        },
    }
}

/// Computes the fingerprint of a SQL text in the MySQL dialect. A text that
/// is not handed to the parser has none: one that cannot be cut into tokens,
/// one in which `GRANTED BY` has no name behind it, and one that nests deeper
/// than the parser takes.
pub fn sql_to_pattern(sql: &str) -> (r: Option<String>)
    ensures
        holds_text(r, fingerprint(sql@)),
{
    let dialect = mysql_dialect();
    match tokenize(&dialect, sql) {
        None => None,
        Some(tokens) => {
            let tokens = trim_tokens(tokens);
            if lacks_grantor(&tokens) || !within_nesting(&tokens) {
                return None;
            }
            match parse_sql(&dialect, sql) {
                None => None,
                Some(stmts) => {
                    let mut stmts = stmts;
                    let ghost all = stmts@;
                    match stmts.pop() {
                        None => None,
                        Some(last) => {
                            assert(last == all[all.len() - 1]);
                            fingerprint_statement(last)
                        },
                    }
                },
            }
        },
    }
}

} // verus!
