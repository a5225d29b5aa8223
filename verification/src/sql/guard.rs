//! What is tested of a SQL text before it is handed to the parser: that a
//! statement which names a grantor does name one, and that the text does not
//! nest deeper than the parser takes.
//!
//! Both tests read the tokens of the text without their blank tokens, as the
//! parser does.

use crate::sql::token::{is_keyword, SqlToken};
use crate::text::to_uppercase;
use vstd::prelude::*;

verus! {

/// Deepest nesting of a text that is handed to the parser: as many levels as
/// the parser itself counts of expressions and queries.
pub const MAX_NESTING: usize = 50;

/// What a token means for the nesting of a text.
#[derive(Copy, Clone, Debug, PartialEq, Eq, Structural)]
pub enum NestingRole {
    /// An opening parenthesis, bracket or brace: what follows is one level
    /// deeper.
    Open,
    /// A closing parenthesis, bracket or brace: the level ends.
    Close,
    /// A comma: one element of a list ends, and the next begins at the same
    /// level.
    Comma,
    /// A semicolon: the statement ends, and with it every level.
    End,
    /// A sign, `NOT`, `INTERVAL` or `ARRAY`: the operand or type that follows
    /// is one level deeper, to the end of the list element.
    Prefix,
    /// Any other token.
    Plain,
}

/// Where a scan for nesting stands.
pub struct NestingScan {
    /// For each open level, outermost first, the depth at which it was
    /// opened and the prefixes that were open in front of it.
    pub levels: Seq<(nat, nat)>,
    /// The depth at which the current list element began.
    pub base: nat,
    /// The prefixes open in the current list element.
    pub prefixes: nat,
    /// The greatest depth so far.
    pub peak: nat,
}

/// The role of a token.
pub open spec fn nesting_role(t: SqlToken) -> NestingRole {
    match t {
        SqlToken::Other(text) => if text@ == seq!['('] || text@ == seq!['['] || text@ == seq![
            '{',
        ] {
            NestingRole::Open
        } else if text@ == seq![')'] || text@ == seq![']'] || text@ == seq!['}'] {
            NestingRole::Close
        } else if text@ == seq![','] {
            NestingRole::Comma
        } else if text@ == seq![';'] {
            NestingRole::End
        } else if text@ == seq!['+'] || text@ == seq!['-'] {
            NestingRole::Prefix
        } else {
            NestingRole::Plain
        },
        SqlToken::Word(_) => if is_keyword(t, seq!['N', 'O', 'T']) || is_keyword(
            t,
            seq!['I', 'N', 'T', 'E', 'R', 'V', 'A', 'L'],
        ) || is_keyword(t, seq!['A', 'R', 'R', 'A', 'Y']) {
            NestingRole::Prefix
        } else {
            NestingRole::Plain
        },
        _ => NestingRole::Plain,
    }
}

/// The scan before the first token.
pub open spec fn scan_start() -> NestingScan {
    NestingScan { levels: Seq::empty(), base: 0, prefixes: 0, peak: 0 }
}

/// The greater of two numbers.
pub open spec fn greater(a: nat, b: nat) -> nat {
    if a >= b {
        a
    } else {
        b
    }
}

/// The scan after one more token.
pub open spec fn scan_step(s: NestingScan, role: NestingRole) -> NestingScan {
    match role {
        NestingRole::Open => NestingScan {
            levels: s.levels.push((s.base, s.prefixes)),
            base: s.base + s.prefixes + 1,
            prefixes: 0,
            peak: greater(s.peak, s.base + s.prefixes + 1),
        },
        NestingRole::Close => if s.levels.len() > 0 {
            NestingScan {
                levels: s.levels.drop_last(),
                base: s.levels.last().0,
                prefixes: s.levels.last().1,
                peak: s.peak,
            }
        } else {
            s
        },
        NestingRole::Comma => NestingScan { prefixes: 0, ..s },
        NestingRole::End => NestingScan { levels: Seq::empty(), base: 0, prefixes: 0, peak: s.peak },
        NestingRole::Prefix => NestingScan {
            prefixes: s.prefixes + 1,
            peak: greater(s.peak, s.base + s.prefixes + 1),
            ..s
        },
        NestingRole::Plain => s,
    }
}

/// The scan after all the tokens of a sequence.
pub open spec fn scanned(tokens: Seq<SqlToken>) -> NestingScan
    decreases tokens.len(),
{
    if tokens.len() == 0 {
        scan_start()
    } else {
        scan_step(scanned(tokens.drop_last()), nesting_role(tokens.last()))
    }
}

/// How deep a token sequence nests: the most levels that are open at once,
/// where a parenthesis opens a level to its closing, and a sign, `NOT`,
/// `INTERVAL` or `ARRAY` opens one to the next comma of its list, to the
/// closing of the list, or to the end of the statement.
pub open spec fn nesting_depth(tokens: Seq<SqlToken>) -> nat {
    scanned(tokens).peak
}

/// The greatest depth never falls as the scan goes on.
pub proof fn lemma_peak_grows(tokens: Seq<SqlToken>, n: int)
    requires
        0 <= n <= tokens.len(),
    ensures
        nesting_depth(tokens.take(n)) <= nesting_depth(tokens),
    decreases tokens.len() - n,
{
    if n < tokens.len() {
        lemma_peak_grows(tokens, n + 1);
        assert(tokens.take(n + 1).drop_last() =~= tokens.take(n));
    } else {
        assert(tokens.take(n) =~= tokens);
    }
}

/// Whether a token can name a grantor: a word, or a string between single
/// quotes.
pub open spec fn names_identifier(t: SqlToken) -> bool {
    t is Word || t is SingleQuotedString
}

/// Whether `GRANTED BY` stands at position `i` with no name behind it.
pub open spec fn grantor_missing_at(tokens: Seq<SqlToken>, i: int) -> bool {
    &&& 0 <= i
    &&& i + 1 < tokens.len()
    &&& is_keyword(tokens[i], seq!['G', 'R', 'A', 'N', 'T', 'E', 'D'])
    &&& is_keyword(tokens[i + 1], seq!['B', 'Y'])
    &&& !(i + 2 < tokens.len() && names_identifier(tokens[i + 2]))
}

/// Whether `GRANTED BY` stands somewhere with no name behind it.
pub open spec fn grantor_missing(tokens: Seq<SqlToken>) -> bool {
    exists|i: int| grantor_missing_at(tokens, i)
}

/// Compares a string with a text.
fn same_text(a: &String, b: &str) -> (same: bool)
    ensures
        same == (a@ == b@),
{
    let b = b.to_owned();
    *a == b
}

/// Tests whether a token is a keyword, given in upper case.
fn check_keyword(t: &SqlToken, keyword: &str) -> (b: bool)
    ensures
        b == is_keyword(*t, keyword@),
{
    match t {
        SqlToken::Word(value) => {
            let upper = to_uppercase(value.as_str());
            same_text(&upper, keyword)
        },
        _ => false,
    }
}

/// Reads the role of a token.
pub fn role_of(t: &SqlToken) -> (role: NestingRole)
    ensures
        role == nesting_role(*t),
{
    proof {
        reveal_strlit("(");
        reveal_strlit("[");
        reveal_strlit("{");
        reveal_strlit(")");
        reveal_strlit("]");
        reveal_strlit("}");
        reveal_strlit(",");
        reveal_strlit(";");
        reveal_strlit("+");
        reveal_strlit("-");
        reveal_strlit("NOT");
        reveal_strlit("INTERVAL");
        reveal_strlit("ARRAY");
        assert("("@ =~= seq!['(']);
        assert("["@ =~= seq!['[']);
        assert("{"@ =~= seq!['{']);
        assert(")"@ =~= seq![')']);
        assert("]"@ =~= seq![']']);
        assert("}"@ =~= seq!['}']);
        assert(","@ =~= seq![',']);
        assert(";"@ =~= seq![';']);
        assert("+"@ =~= seq!['+']);
        assert("-"@ =~= seq!['-']);
        assert("NOT"@ =~= seq!['N', 'O', 'T']);
        assert("INTERVAL"@ =~= seq!['I', 'N', 'T', 'E', 'R', 'V', 'A', 'L']);
        assert("ARRAY"@ =~= seq!['A', 'R', 'R', 'A', 'Y']);
    }
    match t {
        SqlToken::Other(text) => {
            if same_text(text, "(") || same_text(text, "[") || same_text(text, "{") {
                NestingRole::Open
            } else if same_text(text, ")") || same_text(text, "]") || same_text(text, "}") {
                NestingRole::Close
            } else if same_text(text, ",") {
                NestingRole::Comma
            } else if same_text(text, ";") {
                NestingRole::End
            } else if same_text(text, "+") || same_text(text, "-") {
                NestingRole::Prefix
            } else {
                NestingRole::Plain
            }
        },
        SqlToken::Word(_) => {
            if check_keyword(t, "NOT") || check_keyword(t, "INTERVAL") || check_keyword(t, "ARRAY") {
                NestingRole::Prefix
            } else {
                NestingRole::Plain
            }
        },
        _ => NestingRole::Plain,
    }
}

/// The levels of a scan as numbers without bound.
pub open spec fn levels_of(levels: Seq<(usize, usize)>) -> Seq<(nat, nat)> {
    levels.map_values(|l: (usize, usize)| (l.0 as nat, l.1 as nat))
}

/// Tests whether a token sequence nests no deeper than the parser takes.
pub fn within_nesting(tokens: &Vec<SqlToken>) -> (within: bool)
    ensures
        within == (nesting_depth(tokens@) <= MAX_NESTING),
{
    let mut levels: Vec<(usize, usize)> = Vec::new();
    let mut base: usize = 0;
    let mut prefixes: usize = 0;
    let mut i: usize = 0;
    assert(tokens@.take(0) =~= Seq::<SqlToken>::empty());
    assert(levels_of(levels@) =~= Seq::<(nat, nat)>::empty());
    while i < tokens.len()
        invariant
            i <= tokens@.len(),
            scanned(tokens@.take(i as int)).levels == levels_of(levels@),
            scanned(tokens@.take(i as int)).base == base,
            scanned(tokens@.take(i as int)).prefixes == prefixes,
            scanned(tokens@.take(i as int)).peak <= MAX_NESTING,
            base + prefixes <= MAX_NESTING,
            forall|k: int| 0 <= k < levels@.len() ==> (#[trigger] levels@[k]).0 + levels@[k].1
                <= MAX_NESTING,
        decreases tokens@.len() - i,
    {
        let ghost before = scanned(tokens@.take(i as int));
        let ghost saved = levels@;
        proof {
            assert(tokens@.take(i + 1).drop_last() =~= tokens@.take(i as int));
            assert(tokens@.take(i + 1).last() == tokens@[i as int]);
            lemma_peak_grows(tokens@, i + 1);
        }
        match role_of(&tokens[i]) {
            NestingRole::Open => {
                if base + prefixes == MAX_NESTING {
                    return false;
                }
                levels.push((base, prefixes));
                base = base + prefixes + 1;
                prefixes = 0;
                assert(levels_of(levels@) =~= levels_of(saved).push(
                    (before.base, before.prefixes),
                ));
            },
            NestingRole::Close => {
                match levels.pop() {
                    Some(level) => {
                        assert(level == saved[saved.len() - 1]);
                        base = level.0;
                        prefixes = level.1;
                        assert(levels_of(levels@) =~= levels_of(saved).drop_last());
                        assert(levels_of(saved).last() == (level.0 as nat, level.1 as nat));
                    },
                    None => {},
                }
            },
            NestingRole::Comma => {
                prefixes = 0;
            },
            NestingRole::End => {
                levels = Vec::new();
                base = 0;
                prefixes = 0;
                assert(levels_of(levels@) =~= Seq::<(nat, nat)>::empty());
            },
            NestingRole::Prefix => {
                if base + prefixes == MAX_NESTING {
                    return false;
                }
                prefixes = prefixes + 1;
            },
            NestingRole::Plain => {},
        }
        i = i + 1;
    }
    assert(tokens@.take(i as int) =~= tokens@);
    true
}

/// Tests whether `GRANTED BY` stands somewhere with no name behind it.
pub fn lacks_grantor(tokens: &Vec<SqlToken>) -> (missing: bool)
    ensures
        missing == grantor_missing(tokens@),
{
    proof {
        reveal_strlit("GRANTED");
        reveal_strlit("BY");
        assert("GRANTED"@ =~= seq!['G', 'R', 'A', 'N', 'T', 'E', 'D']);
        assert("BY"@ =~= seq!['B', 'Y']);
    }
    let n = tokens.len();
    if n < 2 {
        assert(forall|i: int| !grantor_missing_at(tokens@, i));
        return false;
    }
    let mut i: usize = 0;
    while i < n - 1
        invariant
            n == tokens@.len(),
            n >= 2,
            i <= n - 1,
            "GRANTED"@ == seq!['G', 'R', 'A', 'N', 'T', 'E', 'D'],
            "BY"@ == seq!['B', 'Y'],
            forall|j: int| 0 <= j < i ==> !grantor_missing_at(tokens@, j),
        decreases n - i,
    {
        if check_keyword(&tokens[i], "GRANTED") && check_keyword(&tokens[i + 1], "BY") {
            let named = if i + 2 < n {
                match &tokens[i + 2] {
                    SqlToken::Word(_) => true,
                    SqlToken::SingleQuotedString(_) => true,
                    _ => false,
                }
            } else {
                false
            };
            if !named {
                assert(grantor_missing_at(tokens@, i as int));
                return true;
            }
        }
        i = i + 1;
    }
    assert(forall|j: int| !grantor_missing_at(tokens@, j));
    false
}

} // verus!
