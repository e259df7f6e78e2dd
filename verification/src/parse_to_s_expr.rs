//! Recursive-descent parser from parenthesized text to [`SExpr`] trees.
//!
//! The grammar: an atom is a maximal run of characters that are neither
//! whitespace nor parentheses; a quoted atom is the text between two
//! double quotes (no escapes); a list is `(`, any number of expressions,
//! `)`.  Whitespace separates tokens and is otherwise insignificant.  An
//! opening quote with no closing quote is read under the plain atom rule,
//! quote included.  Nesting deeper than [`PARSE_DEPTH_LIMIT`] is an error.
//!
//! The grammar is pinned by the spec functions [`spec_parse_expr`] and
//! [`spec_parse_items`]; the executable parser returns exactly what they
//! describe.

use vstd::prelude::*;

use crate::s_expr::{models_of, SExpr, SExprModel};

verus! {

/// Most deeply nested lists the parser accepts.
pub const PARSE_DEPTH_LIMIT: u32 = 100;

/// The whitespace characters that separate tokens.
pub open spec fn is_ws(c: char) -> bool {
    c == ' ' || c == '\t' || c == '\n' || c == '\r'
}

/// Characters an atom may contain.
pub open spec fn is_atom_char(c: char) -> bool {
    !is_ws(c) && c != '(' && c != ')'
}

/// First position at or after `i` holding a non-whitespace character.
pub open spec fn skip_ws(s: Seq<char>, i: int) -> int
    decreases s.len() - i,
{
    if 0 <= i < s.len() && is_ws(s[i]) {
        skip_ws(s, i + 1)
    } else {
        i
    }
}

/// End of the atom starting at `i`: the first position at or after `i`
/// holding a character no atom may contain.
pub open spec fn atom_end(s: Seq<char>, i: int) -> int
    decreases s.len() - i,
{
    if 0 <= i < s.len() && is_atom_char(s[i]) {
        atom_end(s, i + 1)
    } else {
        i
    }
}

/// Position of the closing quote at or after `i`, or the input's end if
/// there is none.
pub open spec fn quote_end(s: Seq<char>, i: int) -> int
    decreases s.len() - i,
{
    if 0 <= i < s.len() && s[i] != '"' {
        quote_end(s, i + 1)
    } else {
        i
    }
}

/// Outcome of parsing one expression: the tree and the position that
/// follows it, or failure.
pub enum ParseOut {
    Done { e: SExprModel, next: int },
    Fail,
}

/// Outcome of parsing the members of a list up to its closing paren.
pub enum ItemsOut {
    Done { items: Seq<SExprModel>, next: int },
    Fail,
}

/// The grammar, as a function: what parsing one expression at `i0` with
/// `depth` nesting levels left yields.
pub open spec fn spec_parse_expr(s: Seq<char>, i0: int, depth: int) -> ParseOut
    decreases s.len() - i0, depth, 0int,
{
    if depth <= 0 {
        ParseOut::Fail
    } else {
        let i = skip_ws(s, i0);
        if i < i0 || s.len() < i {
            ParseOut::Fail
        } else if i == s.len() {
            ParseOut::Fail
        } else if s[i] == '(' {
            match spec_parse_items(s, i + 1, depth - 1) {
                ItemsOut::Done { items, next } => ParseOut::Done {
                    e: SExprModel::List(items),
                    next,
                },
                ItemsOut::Fail => ParseOut::Fail,
            }
        } else if s[i] == ')' {
            ParseOut::Fail
        } else if s[i] == '"' && quote_end(s, i + 1) < s.len() {
            let j = quote_end(s, i + 1);
            ParseOut::Done { e: SExprModel::Atom(s.subrange(i + 1, j)), next: j + 1 }
        } else {
            let j = atom_end(s, i);
            if j > i {
                ParseOut::Done { e: SExprModel::Atom(s.subrange(i, j)), next: j }
            } else {
                ParseOut::Fail
            }
        }
    }
}

/// The grammar for the inside of a list: expressions until the closing
/// paren, which is consumed.
pub open spec fn spec_parse_items(s: Seq<char>, i0: int, depth: int) -> ItemsOut
    decreases s.len() - i0, depth, 1int,
{
    let i = skip_ws(s, i0);
    if i < i0 || s.len() < i {
        ItemsOut::Fail
    } else if i == s.len() {
        ItemsOut::Fail
    } else if s[i] == ')' {
        ItemsOut::Done { items: Seq::empty(), next: i + 1 }
    } else {
        match spec_parse_expr(s, i0, depth) {
            ParseOut::Done { e, next } => if i0 < next <= s.len() {
                match spec_parse_items(s, next, depth) {
                    ItemsOut::Done { items, next: after } => ItemsOut::Done {
                        items: seq![e] + items,
                        next: after,
                    },
                    ItemsOut::Fail => ItemsOut::Fail,
                }
            } else {
                ItemsOut::Fail
            },
            ParseOut::Fail => ItemsOut::Fail,
        }
    }
}

/// Advances over whitespace.
fn skip_ws_exec(s: &str, i0: usize) -> (r: usize)
    requires
        i0 <= s@.len(),
    ensures
        r as int == skip_ws(s@, i0 as int),
        i0 <= r <= s@.len(),
        r < s@.len() ==> !is_ws(s@[r as int]),
{
    let len = s.unicode_len();
    let mut i: usize = i0;
    while i < len && ws_char(s.get_char(i))
        invariant
            i0 <= i <= len == s@.len(),
            skip_ws(s@, i0 as int) == skip_ws(s@, i as int),
        decreases len - i,
    {
        i = i + 1;
    }
    i
}

/// Decides whether `c` separates tokens.
fn ws_char(c: char) -> (r: bool)
    ensures
        r == is_ws(c),
{
    c == ' ' || c == '\t' || c == '\n' || c == '\r'
}

/// Decides whether an atom may contain `c`.
fn atom_char(c: char) -> (r: bool)
    ensures
        r == is_atom_char(c),
{
    !(c == ' ' || c == '\t' || c == '\n' || c == '\r') && c != '(' && c != ')'
}

/// Advances to the end of the atom starting at `i0`.
fn atom_end_exec(s: &str, i0: usize) -> (r: usize)
    requires
        i0 <= s@.len(),
    ensures
        r as int == atom_end(s@, i0 as int),
        i0 <= r <= s@.len(),
{
    let len = s.unicode_len();
    let mut i: usize = i0;
    while i < len && atom_char(s.get_char(i))
        invariant
            i0 <= i <= len == s@.len(),
            atom_end(s@, i0 as int) == atom_end(s@, i as int),
        decreases len - i,
    {
        i = i + 1;
    }
    i
}

/// Advances to the closing quote, or to the input's end.
fn quote_end_exec(s: &str, i0: usize) -> (r: usize)
    requires
        i0 <= s@.len(),
    ensures
        r as int == quote_end(s@, i0 as int),
        i0 <= r <= s@.len(),
{
    let len = s.unicode_len();
    let mut i: usize = i0;
    while i < len && s.get_char(i) != '"'
        invariant
            i0 <= i <= len == s@.len(),
            quote_end(s@, i0 as int) == quote_end(s@, i as int),
        decreases len - i,
    {
        i = i + 1;
    }
    i
}

/// Parses one expression starting at `i0`.
fn parse_expr(s: &str, i0: usize, depth: u32) -> (r: Result<(SExpr, usize), String>)
    requires
        i0 <= s@.len(),
    ensures
        match r {
            Ok(p) => spec_parse_expr(s@, i0 as int, depth as int) == (ParseOut::Done {
                e: p.0.model(),
                next: p.1 as int,
            }) && i0 < p.1 <= s@.len(),
            Err(_) => spec_parse_expr(s@, i0 as int, depth as int) is Fail,
        },
    decreases s@.len() - i0, depth, 0int,
{
    if depth == 0 {
        return Err(String::from_str("expression nested too deeply"));
    }
    let len = s.unicode_len();
    let i = skip_ws_exec(s, i0);
    if i == len {
        return Err(String::from_str("unexpected end of input"));
    }
    let c = s.get_char(i);
    if c == '(' {
        match parse_items(s, i + 1, depth - 1) {
            Ok((items, next)) => Ok((SExpr::List(items), next)),
            Err(e) => Err(e),
        }
    } else if c == ')' {
        Err(String::from_str("unexpected closing parenthesis"))
    } else {
        let quoted_to = if c == '"' {
            quote_end_exec(s, i + 1)
        } else {
            len
        };
        if c == '"' && quoted_to < len {
            let atom = String::from_str(s.substring_char(i + 1, quoted_to));
            Ok((SExpr::Atom(atom), quoted_to + 1))
        } else {
            assert(is_atom_char(s@[i as int]));
            let j = atom_end_exec(s, i + 1);
            proof {
                assert(atom_end(s@, i as int) == atom_end(s@, i + 1));
            }
            let atom = String::from_str(s.substring_char(i, j));
            Ok((SExpr::Atom(atom), j))
        }
    }
}

/// Parses list members up to and including the closing paren.
fn parse_items(s: &str, i0: usize, depth: u32) -> (r: Result<(Vec<SExpr>, usize), String>)
    requires
        i0 <= s@.len(),
    ensures
        match r {
            Ok(p) => spec_parse_items(s@, i0 as int, depth as int) == (ItemsOut::Done {
                items: models_of(p.0@),
                next: p.1 as int,
            }) && i0 < p.1 <= s@.len(),
            Err(_) => spec_parse_items(s@, i0 as int, depth as int) is Fail,
        },
    decreases s@.len() - i0, depth, 1int,
{
    let len = s.unicode_len();
    let mut items: Vec<SExpr> = Vec::new();
    let mut cur: usize = i0;
    proof {
        let out = spec_parse_items(s@, i0 as int, depth as int);
        if out is Done {
            assert(Seq::<SExprModel>::empty() + out->Done_items =~= out->Done_items);
        }
        assert(models_of(items@) =~= Seq::<SExprModel>::empty());
    }
    loop
        invariant
            i0 <= cur <= len == s@.len(),
            spec_parse_items(s@, i0 as int, depth as int) == items_append(
                models_of(items@),
                spec_parse_items(s@, cur as int, depth as int),
            ),
        decreases len - cur,
    {
        let i = skip_ws_exec(s, cur);
        if i == len {
            return Err(String::from_str("missing closing parenthesis"));
        }
        let c = s.get_char(i);
        if c == ')' {
            proof {
                assert(models_of(items@) + Seq::<SExprModel>::empty() =~= models_of(items@));
            }
            return Ok((items, i + 1));
        }
        let (e, next) = match parse_expr(s, cur, depth) {
            Ok(p) => p,
            Err(msg) => {
                return Err(msg);
            },
        };
        proof {
            crate::s_expr::lemma_models_of_push(items@, e);
            assert(models_of(items@) + (seq![e.model()] + spec_items_of(
                s@,
                next as int,
                depth as int,
            )) =~= models_of(items@.push(e)) + spec_items_of(s@, next as int, depth as int));
        }
        items.push(e);
        cur = next;
    }
}

/// The members a successful `spec_parse_items` yields; arbitrary on
/// failure.  A helper for stating loop invariants.
pub open spec fn spec_items_of(s: Seq<char>, i0: int, depth: int) -> Seq<SExprModel> {
    match spec_parse_items(s, i0, depth) {
        ItemsOut::Done { items, next } => items,
        ItemsOut::Fail => Seq::empty(),
    }
}

/// Prepends already-parsed members to a list-parsing outcome.
pub open spec fn items_append(prefix: Seq<SExprModel>, out: ItemsOut) -> ItemsOut {
    match out {
        ItemsOut::Done { items, next } => ItemsOut::Done { items: prefix + items, next },
        ItemsOut::Fail => ItemsOut::Fail,
    }
}

/// Whether the whole input parses: one expression, possibly surrounded
/// by whitespace, within the nesting limit.
pub open spec fn parse_ok(s: Seq<char>) -> bool {
    spec_parse_expr(s, 0, PARSE_DEPTH_LIMIT as int) is Done
}

/// The tree the input parses to.
pub open spec fn parsed_tree(s: Seq<char>) -> SExprModel {
    spec_parse_expr(s, 0, PARSE_DEPTH_LIMIT as int)->Done_e
}

/// The position just after the parsed expression.
pub open spec fn parsed_next(s: Seq<char>) -> int {
    spec_parse_expr(s, 0, PARSE_DEPTH_LIMIT as int)->Done_next
}

/// Whether non-whitespace text trails the first expression; the caller
/// reports it as a warning, and the first expression is used.
pub open spec fn has_trailing(s: Seq<char>) -> bool {
    skip_ws(s, parsed_next(s)) < s.len()
}

/// Parses a full document: the first expression of the input, and
/// whether non-whitespace text trails it.
///
/// Returns `Ok` exactly when the input holds a leading expression of the
/// grammar; the tree is the one [`parsed_tree`] describes.
pub fn parse_dsn_to_s_expr(input: &str) -> (r: Result<(SExpr, bool), String>)
    ensures
        r is Ok <==> parse_ok(input@),
        r is Ok ==> (r->Ok_0).0.model() == parsed_tree(input@) && (r->Ok_0).1 == has_trailing(
            input@,
        ),
{
    match parse_expr(input, 0, PARSE_DEPTH_LIMIT) {
        Ok((e, next)) => {
            let rest = skip_ws_exec(input, next);
            let trailing = rest < input.unicode_len();
            Ok((e, trailing))
        },
        Err(msg) => Err(msg),
    }
}

} // verus!
