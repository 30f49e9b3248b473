//! The parser: ordered-alternative backtracking over token slices.  Every
//! production answers in one of three ways: `None` (this rule does not
//! apply), `Some(Ok(..))`, or `Some(Err(..))` (the rule applies and the
//! input is malformed).  Each executable production is verified against its
//! `spec_parse_*` mirror, which states the exact answer for every slice.
use vstd::prelude::*;
use vstd::string::{StrSliceExecFns, StringExecFns};

use crate::tokenizer::{GroupType, TokErrV, TokTypeV, TokV, Token, TokenType, toks_view};
use crate::types::{
    call_view, fun_view, lit_view, ref_view, stmt_seq_view, stmt_view, stmts_view, val_view,
    vals_view, var_view, vars_view, CallV, Callable, FunV, Function, LitV, Literal, RefV,
    Reference, Statement, Statements, StmtV, StmtsV, ValV, Value, Var, VarV,
};
use crate::{FilePos, PosV};

verus! {

/// The error of a production that applies but finds malformed input; it
/// carries the position of the first token of the failing slice.
#[derive(Debug, PartialEq)]
pub struct ParseError {
    pub msg: String,
    pub pos: FilePos,
}

impl View for ParseError {
    type V = TokErrV;

    open spec fn view(&self) -> TokErrV {
        TokErrV { msg: self.msg@, pos: self.pos@ }
    }
}

impl ParseError {
    pub fn new(msg: &str, tokens: &[Token]) -> (e: Self)
        requires
            tokens@.len() > 0,
        ensures
            e@.msg == msg@,
            e@.pos == toks_view(tokens@)[0].pos,
    {
        proof {
            crate::tokenizer::lemma_toks_view(tokens@);
        }
        let t = vstd::slice::slice_index_get(tokens, 0);
        ParseError { msg: msg.to_owned(), pos: t.pos.clone() }
    }
}

// ---------------------------------------------------------------------------
// A size measure on token trees, for termination of the productions.
// ---------------------------------------------------------------------------
pub open spec fn tsize(t: TokV) -> nat
    decreases t,
{
    1 + (match t.kind {
        TokTypeV::Group { gt, toks } => tssize(toks),
        _ => 0nat,
    })
}

pub open spec fn tssize(ts: Seq<TokV>) -> nat
    decreases ts,
{
    if ts.len() == 0 {
        0
    } else {
        tsize(ts[0]) + tssize(ts.drop_first())
    }
}

pub proof fn lemma_tsize_pos(t: TokV)
    ensures
        tsize(t) >= 1,
{
}

pub proof fn lemma_tssize_len(ts: Seq<TokV>)
    ensures
        tssize(ts) >= ts.len(),
    decreases ts.len(),
{
    if ts.len() > 0 {
        lemma_tsize_pos(ts[0]);
        lemma_tssize_len(ts.drop_first());
    }
}

pub proof fn lemma_tssize_concat(a: Seq<TokV>, b: Seq<TokV>)
    ensures
        tssize(a + b) == tssize(a) + tssize(b),
    decreases a.len(),
{
    if a.len() == 0 {
        assert(a + b =~= b);
    } else {
        assert((a + b).drop_first() =~= a.drop_first() + b);
        assert((a + b)[0] == a[0]);
        lemma_tssize_concat(a.drop_first(), b);
    }
}

pub proof fn lemma_tssize_subrange(ts: Seq<TokV>, a: int, b: int)
    requires
        0 <= a <= b <= ts.len(),
    ensures
        tssize(ts.subrange(a, b)) <= tssize(ts),
        b - a < ts.len() ==> tssize(ts.subrange(a, b)) < tssize(ts),
{
    let pre = ts.subrange(0, a);
    let mid = ts.subrange(a, b);
    let post = ts.subrange(b, ts.len() as int);
    assert(ts =~= (pre + mid) + post);
    lemma_tssize_concat(pre, mid);
    lemma_tssize_concat(pre + mid, post);
    assert(tssize(ts) == tssize(pre) + tssize(mid) + tssize(post));
    lemma_tssize_len(pre);
    lemma_tssize_len(post);
}

pub proof fn lemma_tsize_elem(ts: Seq<TokV>, i: int)
    requires
        0 <= i < ts.len(),
    ensures
        tsize(ts[i]) <= tssize(ts),
{
    let s = ts.subrange(i, i + 1);
    assert(s.len() == 1);
    assert(s[0] == ts[i]);
    assert(s.drop_first() =~= Seq::<TokV>::empty());
    assert(tssize(s.drop_first()) == 0);
    assert(tssize(s) == tsize(ts[i]) + tssize(s.drop_first()));
    lemma_tssize_subrange(ts, i, i + 1);
}

/// The first index at or after `from` holding the punctuation `c`, or the
/// slice's length when there is none.
pub open spec fn find_punct(ts: Seq<TokV>, c: char, from: int) -> int
    decreases ts.len() - from,
{
    if from < 0 {
        ts.len() as int
    } else if from >= ts.len() {
        ts.len() as int
    } else if ts[from].kind == TokTypeV::Punct(c) {
        from
    } else {
        find_punct(ts, c, from + 1)
    }
}

pub proof fn lemma_find_punct(ts: Seq<TokV>, c: char, from: int)
    requires
        0 <= from <= ts.len(),
    ensures
        from <= find_punct(ts, c, from) <= ts.len(),
        find_punct(ts, c, from) < ts.len() ==> ts[find_punct(ts, c, from)].kind == TokTypeV::Punct(
            c,
        ),
        forall|k: int|
            from <= k < find_punct(ts, c, from) ==> ts[k].kind != TokTypeV::Punct(c),
    decreases ts.len() - from,
{
    if from < ts.len() && ts[from].kind != TokTypeV::Punct(c) {
        lemma_find_punct(ts, c, from + 1);
    }
}

/// The directory part of `file` (everything through its last `/`) joined
/// with `p`: how an include path is resolved against the including file.
/// The loader outside the library canonicalizes the result.
pub open spec fn last_slash(file: Seq<char>, i: int) -> int
    decreases i,
{
    if i <= 0 {
        -1
    } else if file[i - 1] == '/' {
        i - 1
    } else {
        last_slash(file, i - 1)
    }
}

pub open spec fn resolve_include(file: Seq<char>, p: Seq<char>) -> Seq<char> {
    let k = last_slash(file, file.len() as int);
    if k < 0 {
        p
    } else {
        file.subrange(0, k + 1) + p
    }
}

// ---------------------------------------------------------------------------
// The spec mirror of every production.
// ---------------------------------------------------------------------------
/// A single identifier token names a variable.
pub open spec fn spec_parse_var(ts: Seq<TokV>) -> Option<Result<VarV, TokErrV>> {
    if ts.len() == 1 {
        match ts[0].kind {
            TokTypeV::Word(name) => Some(Ok(VarV { name, pos: ts[0].pos })),
            _ => None,
        }
    } else {
        None
    }
}

/// The parameter names inside a function literal's parenthesis group, read
/// pairwise: an identifier, then either a comma and more, or the end.
pub open spec fn spec_parse_fn_args(ts: Seq<TokV>, i: int) -> Option<Seq<VarV>>
    decreases ts.len() - i,
{
    if i < 0 || i >= ts.len() {
        Some(Seq::empty())
    } else {
        let arg = match ts[i].kind {
            TokTypeV::Word(name) => Some(VarV { name, pos: ts[i].pos }),
            _ => None,
        };
        if i + 1 < ts.len() {
            if ts[i + 1].kind == TokTypeV::Punct(',') {
                match (arg, spec_parse_fn_args(ts, i + 2)) {
                    (Some(a), Some(rest)) => Some(seq![a] + rest),
                    _ => None,
                }
            } else {
                None
            }
        } else {
            match arg {
                Some(a) => Some(seq![a]),
                None => None,
            }
        }
    }
}

/// A function literal: a parenthesis group of parameters followed by a brace
/// group holding the body.  A body that fails to parse makes the rule not
/// apply, so later alternatives are still tried.
pub open spec fn spec_parse_function(ts: Seq<TokV>) -> Option<Result<FunV, TokErrV>>
    decreases tssize(ts), 1int,
    via spec_parse_function_dec
{
    if ts.len() != 2 {
        None
    } else {
        match ts[0].kind {
            TokTypeV::Group { gt: GroupType::Paren, toks: arg_toks } => match spec_parse_fn_args(
                arg_toks,
                0,
            ) {
                Some(args) => match ts[1].kind {
                    TokTypeV::Group { gt: GroupType::Curly, toks: body_toks } => match
                        spec_parse_statements(body_toks) {
                        Ok(body) => Some(Ok(FunV { args, body, pos: ts[0].pos })),
                        _ => None,
                    },
                    _ => None,
                },
                None => None,
            },
            _ => None,
        }
    }
}

#[via_fn]
proof fn spec_parse_function_dec(ts: Seq<TokV>) {
    if ts.len() == 2 {
        lemma_tsize_elem(ts, 1);
        lemma_tssize_len(ts);
    }
}

pub open spec fn spec_parse_callable(ts: Seq<TokV>) -> Option<Result<CallV, TokErrV>>
    decreases tssize(ts), 2int,
{
    match spec_parse_function(ts) {
        Some(Ok(f)) => Some(Ok(CallV::Fun(f))),
        Some(Err(e)) => Some(Err(e)),
        None => None,
    }
}

/// A literal: one scalar token, one of the words `Nope`, `True`, `False`,
/// or a function literal.
pub open spec fn spec_parse_literal(ts: Seq<TokV>) -> Option<Result<LitV, TokErrV>>
    decreases tssize(ts), 3int,
{
    let single: Option<LitV> = if ts.len() == 1 {
        match ts[0].kind {
            TokTypeV::StrLit(s) => Some(LitV::Str(s)),
            TokTypeV::CharLit(c) => Some(LitV::Char(c)),
            TokTypeV::Number(b) => Some(LitV::Num(b)),
            TokTypeV::Word(s) => if s == "Nope"@ {
                Some(LitV::Nope)
            } else if s == "True"@ {
                Some(LitV::Bool(true))
            } else if s == "False"@ {
                Some(LitV::Bool(false))
            } else {
                None
            },
            _ => None,
        }
    } else {
        None
    };
    match single {
        Some(l) => Some(Ok(l)),
        None => match spec_parse_callable(ts) {
            Some(Ok(c)) => Some(Ok(LitV::Fun(c))),
            Some(Err(e)) => Some(Err(e)),
            None => None,
        },
    }
}

/// A reference: a bare name, or a value, a dot, and a field name, split at
/// the right-anchored dot.
pub open spec fn spec_parse_reference(ts: Seq<TokV>) -> Option<Result<RefV, TokErrV>>
    decreases tssize(ts), 4int,
    via spec_parse_reference_dec
{
    if ts.len() == 1 {
        match spec_parse_var(ts) {
            Some(Ok(v)) => Some(Ok(RefV::Var(v))),
            Some(Err(e)) => Some(Err(e)),
            None => None,
        }
    } else if ts.len() >= 3 {
        if ts[ts.len() - 2].kind == TokTypeV::Punct('.') {
            match spec_parse_value(ts.subrange(0, ts.len() - 2)) {
                Some(Ok(set)) => match spec_parse_var(seq![ts[ts.len() - 1]]) {
                    Some(Ok(field)) => Some(
                        Ok(RefV::Member { set: Box::new(set), field, pos: ts[0].pos }),
                    ),
                    Some(Err(e)) => Some(Err(e)),
                    None => None,
                },
                Some(Err(e)) => Some(Err(e)),
                None => None,
            }
        } else {
            None
        }
    } else {
        None
    }
}

#[via_fn]
proof fn spec_parse_reference_dec(ts: Seq<TokV>) {
    if ts.len() >= 3 {
        lemma_tssize_subrange(ts, 0, ts.len() - 2);
    }
}

/// The comma-separated argument slices inside a call's parenthesis group;
/// empty slices are skipped.
pub open spec fn spec_parse_call_params(ts: Seq<TokV>, err_pos: PosV) -> Option<
    Result<Seq<ValV>, TokErrV>,
>
    decreases tssize(ts), 6int,
    via spec_parse_call_params_dec
{
    if ts.len() == 0 {
        Some(Ok(Seq::empty()))
    } else {
        let idx = find_punct(ts, ',', 0);
        let seg = ts.subrange(0, idx);
        let rest: Seq<TokV> = if idx < ts.len() {
            ts.subrange(idx + 1, ts.len() as int)
        } else {
            Seq::empty()
        };
        if seg.len() == 0 {
            spec_parse_call_params(rest, err_pos)
        } else {
            match spec_parse_value(seg) {
                Some(Ok(v)) => match spec_parse_call_params(rest, err_pos) {
                    Some(Ok(more)) => Some(Ok(seq![v] + more)),
                    other => other,
                },
                Some(Err(e)) => Some(Err(e)),
                None => Some(
                    Err(TokErrV { msg: "Cannot parse into function call"@, pos: err_pos }),
                ),
            }
        }
    }
}

#[via_fn]
proof fn spec_parse_call_params_dec(ts: Seq<TokV>, err_pos: PosV) {
    if ts.len() > 0 {
        lemma_find_punct(ts, ',', 0);
        let idx = find_punct(ts, ',', 0);
        lemma_tssize_subrange(ts, 0, idx);
        if idx < ts.len() {
            lemma_tssize_subrange(ts, idx + 1, ts.len() as int);
        }
        lemma_tssize_len(ts);
    }
}

/// A value: a literal, a reference, or an application whose callee is
/// everything before a final parenthesis group.
pub open spec fn spec_parse_value(ts: Seq<TokV>) -> Option<Result<ValV, TokErrV>>
    decreases tssize(ts), 5int,
    via spec_parse_value_dec
{
    if ts.len() == 0 {
        None
    } else {
    match spec_parse_literal(ts) {
        Some(Ok(l)) => Some(Ok(ValV::Lit(l))),
        Some(Err(e)) => Some(Err(e)),
        None => match spec_parse_reference(ts) {
            Some(Ok(r)) => Some(Ok(ValV::Ref(r))),
            Some(Err(e)) => Some(Err(e)),
            None => {
                let fun_toks = ts.subrange(0, ts.len() - 1);
                if fun_toks.len() == 0 {
                    None
                } else {
                    let fun_res: Result<ValV, TokErrV> = match spec_parse_value(fun_toks) {
                        Some(Ok(v)) => Ok(v),
                        Some(Err(e)) => Err(e),
                        None => Err(
                            TokErrV {
                                msg: "Cannot parse into function call"@,
                                pos: fun_toks[0].pos,
                            },
                        ),
                    };
                    match fun_res {
                        Err(e) => Some(Err(e)),
                        Ok(fun) => match ts[ts.len() - 1].kind {
                            TokTypeV::Group { gt: GroupType::Paren, toks: ptoks } => match
                                spec_parse_call_params(ptoks, fun_toks[0].pos) {
                                Some(Ok(params)) => Some(
                                    Ok(
                                        ValV::FunCall {
                                            fun: Box::new(fun),
                                            params,
                                            pos: ts[0].pos,
                                        },
                                    ),
                                ),
                                Some(Err(e)) => Some(Err(e)),
                                None => None,
                            },
                            _ => None,
                        },
                    }
                }
            },
        },
    }
    }
}

#[via_fn]
proof fn spec_parse_value_dec(ts: Seq<TokV>) {
    if ts.len() >= 1 {
        lemma_tssize_subrange(ts, 0, ts.len() - 1);
        lemma_tsize_elem(ts, ts.len() - 1);
        lemma_tssize_len(ts);
        match ts[ts.len() - 1].kind {
            TokTypeV::Group { gt, toks } => {
                assert(tsize(ts[ts.len() - 1]) == 1 + tssize(toks));
            },
            _ => {},
        }
    }
}

/// One statement: a `let` assignment, an include, or a bare value; a slice
/// matching none of these is a hard error.
pub open spec fn spec_parse_statement(ts: Seq<TokV>) -> Option<Result<StmtV, TokErrV>>
    decreases tssize(ts), 7int,
    via spec_parse_statement_dec
{
    let let_rule: Option<Result<StmtV, TokErrV>> = if ts.len() > 0 && ts[0].kind
        == TokTypeV::Word("let"@) {
        let eq = find_punct(ts, '=', 0);
        if eq >= ts.len() || eq <= 1 || eq + 1 >= ts.len() {
            None
        } else {
            // a hard failure in either side propagates at once, so the
            // deeper error is never traded for a worse-matching rule
            match spec_parse_reference(ts.subrange(1, eq)) {
                Some(Ok(var)) => match spec_parse_value(
                    ts.subrange(eq + 1, ts.len() as int),
                ) {
                    Some(Ok(val)) => Some(
                        Ok(StmtV::Assignment { var, val, pos: ts[0].pos }),
                    ),
                    Some(Err(e)) => Some(Err(e)),
                    None => None,
                },
                Some(Err(e)) => Some(Err(e)),
                None => None,
            }
        }
    } else {
        None
    };
    match let_rule {
        Some(r) => Some(r),
        None => {
            let include_rule: Option<Result<StmtV, TokErrV>> = if ts.len() > 0 && ts[0].kind
                == TokTypeV::Word("include"@) {
                if ts.len() >= 2 {
                    match ts[1].kind {
                        TokTypeV::StrLit(p) => Some(
                            Ok(StmtV::Include(resolve_include(ts[1].pos.file, p))),
                        ),
                        _ => Some(
                            Err(
                                TokErrV {
                                    msg: "Include expects a quoted file path"@,
                                    pos: ts[0].pos,
                                },
                            ),
                        ),
                    }
                } else {
                    Some(
                        Err(
                            TokErrV {
                                msg: "Include expects a quoted file path"@,
                                pos: ts[0].pos,
                            },
                        ),
                    )
                }
            } else {
                None
            };
            match include_rule {
                Some(r) => Some(r),
                None => match spec_parse_value(ts) {
                    Some(Ok(v)) => Some(Ok(StmtV::Value(v))),
                    Some(Err(e)) => Some(Err(e)),
                    None => if ts.len() > 0 {
                        Some(
                            Err(
                                TokErrV { msg: "Cannot parse into statement"@, pos: ts[0].pos },
                            ),
                        )
                    } else {
                        None
                    },
                },
            }
        },
    }
}

#[via_fn]
proof fn spec_parse_statement_dec(ts: Seq<TokV>) {
    if ts.len() > 0 {
        let eq = find_punct(ts, '=', 0);
        lemma_find_punct(ts, '=', 0);
        if 1 < eq && eq + 1 < ts.len() {
            lemma_tssize_subrange(ts, 1, eq);
            lemma_tssize_subrange(ts, eq + 1, ts.len() as int);
        }
        lemma_tssize_len(ts);
    }
}

/// A statement sequence: the slice is split on every top-level `;`; each
/// piece becomes a statement, and an empty final piece becomes an implicit
/// `Nope` so that the sequence always has a result.
pub open spec fn spec_parse_statements(ts: Seq<TokV>) -> Result<StmtsV, TokErrV>
    decreases tssize(ts), 8int,
    via spec_parse_statements_dec
{
    let semi = find_punct(ts, ';', 0);
    if semi >= ts.len() {
        // no split: a single final segment
        if ts.len() == 0 {
            Ok(StmtsV { stmts: seq![StmtV::Value(ValV::Lit(LitV::Nope))] })
        } else {
            match spec_parse_statement(ts) {
                Some(Ok(s)) => Ok(StmtsV { stmts: seq![s] }),
                Some(Err(e)) => Err(e),
                None => Err(TokErrV { msg: "Cannot parse into block"@, pos: ts[0].pos }),
            }
        }
    } else {
        let seg = ts.subrange(0, semi);
        let rest = ts.subrange(semi + 1, ts.len() as int);
        if seg.len() == 0 {
            Err(TokErrV { msg: "Cannot parse into a statement"@, pos: ts[0].pos })
        } else {
            match spec_parse_statement(seg) {
                Some(Ok(s)) => match spec_parse_statements(rest) {
                    Ok(more) => Ok(StmtsV { stmts: seq![s] + more.stmts }),
                    Err(e) => Err(e),
                },
                Some(Err(e)) => Err(e),
                None => Err(
                    TokErrV { msg: "Cannot parse into a statement"@, pos: seg[0].pos },
                ),
            }
        }
    }
}

#[via_fn]
proof fn spec_parse_statements_dec(ts: Seq<TokV>) {
    let semi = find_punct(ts, ';', 0);
    lemma_find_punct(ts, ';', 0);
    if semi < ts.len() {
        lemma_tssize_subrange(ts, 0, semi);
        lemma_tssize_subrange(ts, semi + 1, ts.len() as int);
    }
    lemma_tssize_len(ts);
}

// ---------------------------------------------------------------------------
// The executable productions.
// ---------------------------------------------------------------------------
fn find_punct_exec(tokens: &[Token], c: char, from: usize) -> (r: usize)
    requires
        from <= tokens@.len(),
    ensures
        r == find_punct(toks_view(tokens@), c, from as int),
        from <= r <= tokens@.len(),
    decreases tokens@.len() - from,
{
    proof {
        crate::tokenizer::lemma_toks_view(tokens@);
    }
    if from >= tokens.len() {
        return tokens.len();
    }
    let t = vstd::slice::slice_index_get(tokens, from);
    let hit = match &t.kind {
        TokenType::Char(c2) => *c2 == c,
        _ => false,
    };
    if hit {
        from
    } else {
        find_punct_exec(tokens, c, from + 1)
    }
}

impl Var {
    /// A single identifier token parses to a variable; anything else is not
    /// this rule.
    pub fn parse(tokens: &[Token]) -> (r: Option<Result<Var, ParseError>>)
        ensures
            (match r {
                Some(Ok(v)) => spec_parse_var(toks_view(tokens@)) == Some(
                    Ok::<VarV, TokErrV>(v@),
                ),
                Some(Err(e)) => spec_parse_var(toks_view(tokens@)) == Some(
                    Err::<VarV, TokErrV>(e@),
                ),
                None => spec_parse_var(toks_view(tokens@)) is None,
            }),
    {
        proof {
            crate::tokenizer::lemma_toks_view(tokens@);
        }
        if tokens.len() != 1 {
            return None;
        }
        let t = vstd::slice::slice_index_get(tokens, 0);
        match &t.kind {
            TokenType::String(name) => {
                let v = Var { name: name.clone(), pos: t.pos.clone() };
                proof {
                    assert(v@ =~= (VarV {
                        name: name@,
                        pos: toks_view(tokens@)[0].pos,
                    }));
                }
                Some(Ok(v))
            },
            _ => None,
        }
    }
}

/// The parameter names of a function literal, read pairwise from the
/// parenthesis group's tokens.
fn parse_fn_args(toks: &[Token], i: usize) -> (r: Option<Vec<Var>>)
    requires
        i <= toks@.len(),
    ensures
        (match spec_parse_fn_args(toks_view(toks@), i as int) {
            Some(vs) => r matches Some(v) && vars_view(v@) == vs,
            None => r is None,
        }),
    decreases toks@.len() - i,
{
    proof {
        crate::tokenizer::lemma_toks_view(toks@);
    }
    if i >= toks.len() {
        proof {
            assert(vars_view(Seq::<Var>::empty()) =~= Seq::<VarV>::empty());
        }
        return Some(Vec::new());
    }
    let t = vstd::slice::slice_index_get(toks, i);
    let arg: Option<Var> = match &t.kind {
        TokenType::String(name) => Some(Var { name: name.clone(), pos: t.pos.clone() }),
        _ => None,
    };
    if i + 1 < toks.len() {
        let t2 = vstd::slice::slice_index_get(toks, i + 1);
        let is_comma = match &t2.kind {
            TokenType::Char(c) => *c == ',',
            _ => false,
        };
        if is_comma {
            match (arg, parse_fn_args(toks, i + 2)) {
                (Some(a), Some(rest)) => {
                    let ghost av = a@;
                    let ghost rv = rest@;
                    let mut rest = rest;
                    rest.insert(0, a);
                    proof {
                        assert(rest@.drop_first() =~= rv);
                        assert(vars_view(rest@) =~= seq![av] + vars_view(rv));
                        assert(av =~= (VarV {
                            name: toks_view(toks@)[i as int].kind->Word_0,
                            pos: toks_view(toks@)[i as int].pos,
                        }));
                    }
                    Some(rest)
                },
                _ => None,
            }
        } else {
            None
        }
    } else {
        match arg {
            Some(a) => {
                let ghost av = a@;
                let mut v: Vec<Var> = Vec::new();
                v.push(a);
                proof {
                    assert(v@.len() == 1);
                    assert(v@.drop_first() =~= Seq::<Var>::empty());
                    assert(vars_view(v@.drop_first()) =~= Seq::<VarV>::empty());
                    assert(var_view(v@[0]) =~= av);
                    assert(vars_view(v@) =~= seq![av]);
                    assert(av =~= (VarV {
                        name: toks_view(toks@)[i as int].kind->Word_0,
                        pos: toks_view(toks@)[i as int].pos,
                    }));
                }
                Some(v)
            },
            None => None,
        }
    }
}

impl Function {
    /// A parenthesis group of parameters followed by a brace group holding
    /// the body.
    pub fn parse(tokens: &[Token]) -> (r: Option<Result<Function, ParseError>>)
        ensures
            (match r {
                Some(Ok(f)) => spec_parse_function(toks_view(tokens@)) == Some(
                    Ok::<FunV, TokErrV>(fun_view(f)),
                ),
                Some(Err(e)) => spec_parse_function(toks_view(tokens@)) == Some(
                    Err::<FunV, TokErrV>(e@),
                ),
                None => spec_parse_function(toks_view(tokens@)) is None,
            }),
        decreases tssize(toks_view(tokens@)), 1int,
    {
        proof {
            crate::tokenizer::lemma_toks_view(tokens@);
        }
        if tokens.len() != 2 {
            return None;
        }
        let t0 = vstd::slice::slice_index_get(tokens, 0);
        let t1 = vstd::slice::slice_index_get(tokens, 1);
        match &t0.kind {
            TokenType::Group { gtype: g0, tokens: arg_toks } => {
                if !matches!(g0, GroupType::Paren) {
                    return None;
                }
                match parse_fn_args(arg_toks.as_slice(), 0) {
                    Some(args) => match &t1.kind {
                        TokenType::Group { gtype: g1, tokens: body_toks } => {
                            if !matches!(g1, GroupType::Curly) {
                                return None;
                            }
                            proof {
                                lemma_tsize_elem(toks_view(tokens@), 1);
                                lemma_tssize_len(toks_view(tokens@));
                            }
                            match Statements::parse(body_toks.as_slice()) {
                                Some(Ok(body)) => {
                                    let f = Function {
                                        args,
                                        body,
                                        pos: t0.pos.clone(),
                                    };
                                    proof {
                                        assert(fun_view(f) =~= (FunV {
                                            args: vars_view(f.args@),
                                            body: stmts_view(f.body),
                                            pos: toks_view(tokens@)[0].pos,
                                        }));
                                    }
                                    Some(Ok(f))
                                },
                                _ => None,
                            }
                        },
                        _ => None,
                    },
                    None => None,
                }
            },
            _ => None,
        }
    }
}

impl Callable {
    pub fn parse(tokens: &[Token]) -> (r: Option<Result<Callable, ParseError>>)
        ensures
            (match r {
                Some(Ok(c)) => spec_parse_callable(toks_view(tokens@)) == Some(
                    Ok::<CallV, TokErrV>(call_view(c)),
                ),
                Some(Err(e)) => spec_parse_callable(toks_view(tokens@)) == Some(
                    Err::<CallV, TokErrV>(e@),
                ),
                None => spec_parse_callable(toks_view(tokens@)) is None,
            }),
        decreases tssize(toks_view(tokens@)), 2int,
    {
        match Function::parse(tokens) {
            Some(Ok(f)) => Some(Ok(Callable::Fun(f))),
            Some(Err(e)) => Some(Err(e)),
            None => None,
        }
    }
}

impl Literal {
    /// One scalar token, one of the words `Nope`, `True`, `False`, or a
    /// function literal.
    pub fn parse(tokens: &[Token]) -> (r: Option<Result<Literal, ParseError>>)
        ensures
            (match r {
                Some(Ok(l)) => spec_parse_literal(toks_view(tokens@)) == Some(
                    Ok::<LitV, TokErrV>(lit_view(l)),
                ),
                Some(Err(e)) => spec_parse_literal(toks_view(tokens@)) == Some(
                    Err::<LitV, TokErrV>(e@),
                ),
                None => spec_parse_literal(toks_view(tokens@)) is None,
            }),
        decreases tssize(toks_view(tokens@)), 3int,
    {
        proof {
            crate::tokenizer::lemma_toks_view(tokens@);
        }
        if tokens.len() == 1 {
            let t = vstd::slice::slice_index_get(tokens, 0);
            match &t.kind {
                TokenType::StringLit(s) => {
                    return Some(Ok(Literal::Str(s.clone())));
                },
                TokenType::CharLit(c) => {
                    return Some(Ok(Literal::Char(*c)));
                },
                TokenType::Number(b) => {
                    return Some(Ok(Literal::Num(*b)));
                },
                TokenType::String(s) => {
                    if crate::strutil::str_eq(s.as_str(), "Nope") {
                        return Some(Ok(Literal::Nope));
                    }
                    if crate::strutil::str_eq(s.as_str(), "True") {
                        return Some(Ok(Literal::Bool(true)));
                    }
                    if crate::strutil::str_eq(s.as_str(), "False") {
                        return Some(Ok(Literal::Bool(false)));
                    }
                },
                _ => {},
            }
        }
        match Callable::parse(tokens) {
            Some(Ok(c)) => Some(Ok(Literal::Fun(c))),
            Some(Err(e)) => Some(Err(e)),
            None => None,
        }
    }
}

impl Reference {
    /// A bare name, or `<value> . <name>`, split at the right-anchored dot.
    pub fn parse(tokens: &[Token]) -> (r: Option<Result<Reference, ParseError>>)
        ensures
            (match r {
                Some(Ok(rf)) => spec_parse_reference(toks_view(tokens@)) == Some(
                    Ok::<RefV, TokErrV>(ref_view(rf)),
                ),
                Some(Err(e)) => spec_parse_reference(toks_view(tokens@)) == Some(
                    Err::<RefV, TokErrV>(e@),
                ),
                None => spec_parse_reference(toks_view(tokens@)) is None,
            }),
        decreases tssize(toks_view(tokens@)), 4int,
    {
        proof {
            crate::tokenizer::lemma_toks_view(tokens@);
        }
        let n = tokens.len();
        if n == 1 {
            return match Var::parse(tokens) {
                Some(Ok(v)) => Some(Ok(Reference::Var(v))),
                Some(Err(e)) => Some(Err(e)),
                None => None,
            };
        }
        if n < 3 {
            return None;
        }
        let dot = vstd::slice::slice_index_get(tokens, n - 2);
        let is_dot = match &dot.kind {
            TokenType::Char(c) => *c == '.',
            _ => false,
        };
        if !is_dot {
            return None;
        }
        let prefix = vstd::slice::slice_subrange(tokens, 0, n - 2);
        proof {
            assert(toks_view(prefix@) =~= toks_view(tokens@).subrange(
                0,
                tokens@.len() - 2,
            )) by {
                crate::tokenizer::lemma_toks_view(prefix@);
            }
            lemma_tssize_subrange(toks_view(tokens@), 0, tokens@.len() - 2);
        }
        let set = match Value::parse(prefix) {
            Some(Ok(v)) => v,
            Some(Err(e)) => {
                return Some(Err(e));
            },
            None => {
                return None;
            },
        };
        let fld = vstd::slice::slice_subrange(tokens, n - 1, n);
        proof {
            assert(toks_view(fld@) =~= seq![toks_view(tokens@)[tokens@.len() - 1]]) by {
                crate::tokenizer::lemma_toks_view(fld@);
            }
        }
        match Var::parse(fld) {
            Some(Ok(field)) => {
                let ghost sv = val_view(set);
                let ghost fv = field@;
                let t0 = vstd::slice::slice_index_get(tokens, 0);
                let rf = Reference::Member {
                    set: Box::new(set),
                    field,
                    pos: t0.pos.clone(),
                };
                proof {
                    assert(ref_view(rf) =~= (RefV::Member {
                        set: Box::new(sv),
                        field: fv,
                        pos: toks_view(tokens@)[0].pos,
                    }));
                }
                Some(Ok(rf))
            },
            Some(Err(e)) => Some(Err(e)),
            None => None,
        }
    }
}

/// The comma-separated argument slices inside a call's parenthesis group.
/// `err_src` is the callee slice, whose first token positions the error for
/// an argument that parses to nothing.
fn parse_call_params(toks: &[Token], err_src: &[Token]) -> (r: Result<Vec<Value>, ParseError>)
    requires
        err_src@.len() > 0,
    ensures
        (match r {
            Ok(vs) => spec_parse_call_params(toks_view(toks@), toks_view(err_src@)[0].pos)
                == Some(Ok::<Seq<ValV>, TokErrV>(vals_view(vs@))),
            Err(e) => spec_parse_call_params(toks_view(toks@), toks_view(err_src@)[0].pos)
                == Some(Err::<Seq<ValV>, TokErrV>(e@)),
        }),
    decreases tssize(toks_view(toks@)), 6int,
{
    proof {
        crate::tokenizer::lemma_toks_view(toks@);
        lemma_find_punct(toks_view(toks@), ',', 0);
    }
    let n = toks.len();
    if n == 0 {
        proof {
            assert(vals_view(Seq::<Value>::empty()) =~= Seq::<ValV>::empty());
        }
        return Ok(Vec::new());
    }
    let idx = find_punct_exec(toks, ',', 0);
    let seg = vstd::slice::slice_subrange(toks, 0, idx);
    proof {
        assert(toks_view(seg@) =~= toks_view(toks@).subrange(0, idx as int)) by {
            crate::tokenizer::lemma_toks_view(seg@);
        }
        lemma_tssize_subrange(toks_view(toks@), 0, idx as int);
        lemma_tssize_len(toks_view(toks@));
    }
    let rest: &[Token] = if idx < n {
        let r2 = vstd::slice::slice_subrange(toks, idx + 1, n);
        proof {
            assert(toks_view(r2@) =~= toks_view(toks@).subrange(
                idx + 1,
                toks@.len() as int,
            )) by {
                crate::tokenizer::lemma_toks_view(r2@);
            }
            lemma_tssize_subrange(toks_view(toks@), idx + 1, toks@.len() as int);
        }
        r2
    } else {
        let r2 = vstd::slice::slice_subrange(toks, n, n);
        proof {
            assert(toks_view(r2@) =~= Seq::<TokV>::empty()) by {
                crate::tokenizer::lemma_toks_view(r2@);
            }
        }
        r2
    };
    if seg.len() == 0 {
        return parse_call_params(rest, err_src);
    }
    match Value::parse(seg) {
        Some(Ok(v)) => match parse_call_params(rest, err_src) {
            Ok(more) => {
                let ghost vv = val_view(v);
                let ghost mv = more@;
                let mut more = more;
                more.insert(0, v);
                proof {
                    assert(more@.drop_first() =~= mv);
                    assert(vals_view(more@) =~= seq![vv] + vals_view(mv));
                }
                Ok(more)
            },
            Err(e) => Err(e),
        },
        Some(Err(e)) => Err(e),
        None => Err(ParseError::new("Cannot parse into function call", err_src)),
    }
}

impl Value {
    /// A literal, a reference, or an application whose callee is everything
    /// before a final parenthesis group.
    pub fn parse(tokens: &[Token]) -> (r: Option<Result<Value, ParseError>>)
        ensures
            (match r {
                Some(Ok(v)) => spec_parse_value(toks_view(tokens@)) == Some(
                    Ok::<ValV, TokErrV>(val_view(v)),
                ),
                Some(Err(e)) => spec_parse_value(toks_view(tokens@)) == Some(
                    Err::<ValV, TokErrV>(e@),
                ),
                None => spec_parse_value(toks_view(tokens@)) is None,
            }),
        decreases tssize(toks_view(tokens@)), 5int,
    {
        proof {
            crate::tokenizer::lemma_toks_view(tokens@);
        }
        let n = tokens.len();
        if n == 0 {
            return None;
        }
        match Literal::parse(tokens) {
            Some(Ok(l)) => {
                return Some(Ok(Value::Lit(l)));
            },
            Some(Err(e)) => {
                return Some(Err(e));
            },
            None => {},
        }
        match Reference::parse(tokens) {
            Some(Ok(rf)) => {
                return Some(Ok(Value::Ref(rf)));
            },
            Some(Err(e)) => {
                return Some(Err(e));
            },
            None => {},
        }
        let fun_toks = vstd::slice::slice_subrange(tokens, 0, n - 1);
        proof {
            assert(toks_view(fun_toks@) =~= toks_view(tokens@).subrange(
                0,
                tokens@.len() - 1,
            )) by {
                crate::tokenizer::lemma_toks_view(fun_toks@);
            }
            lemma_tssize_subrange(toks_view(tokens@), 0, tokens@.len() - 1);
            lemma_tsize_elem(toks_view(tokens@), tokens@.len() - 1);
            lemma_tssize_len(toks_view(tokens@));
        }
        if fun_toks.len() == 0 {
            return None;
        }
        let fun = match Value::parse(fun_toks) {
            Some(Ok(v)) => v,
            Some(Err(e)) => {
                return Some(Err(e));
            },
            None => {
                return Some(Err(ParseError::new("Cannot parse into function call", fun_toks)));
            },
        };
        let last = vstd::slice::slice_index_get(tokens, n - 1);
        match &last.kind {
            TokenType::Group { gtype, tokens: ptoks } => {
                if !matches!(gtype, GroupType::Paren) {
                    return None;
                }
                proof {
                    match toks_view(tokens@)[tokens@.len() - 1].kind {
                        TokTypeV::Group { gt, toks } => {
                            assert(tsize(toks_view(tokens@)[tokens@.len() - 1]) == 1 + tssize(
                                toks,
                            ));
                        },
                        _ => {},
                    }
                }
                match parse_call_params(ptoks.as_slice(), fun_toks) {
                    Ok(params) => {
                        let ghost fv = val_view(fun);
                        let ghost pv = vals_view(params@);
                        let t0 = vstd::slice::slice_index_get(tokens, 0);
                        let v = Value::FunCall {
                            fun: Box::new(fun),
                            params,
                            pos: t0.pos.clone(),
                        };
                        proof {
                            assert(val_view(v) =~= (ValV::FunCall {
                                fun: Box::new(fv),
                                params: pv,
                                pos: toks_view(tokens@)[0].pos,
                            }));
                        }
                        Some(Ok(v))
                    },
                    Err(e) => Some(Err(e)),
                }
            },
            _ => None,
        }
    }
}

impl Statement {
    /// A `let` assignment, an include, or a bare value statement.
    pub fn parse(tokens: &[Token]) -> (r: Option<Result<Statement, ParseError>>)
        ensures
            (match r {
                Some(Ok(st)) => spec_parse_statement(toks_view(tokens@)) == Some(
                    Ok::<StmtV, TokErrV>(stmt_view(st)),
                ),
                Some(Err(e)) => spec_parse_statement(toks_view(tokens@)) == Some(
                    Err::<StmtV, TokErrV>(e@),
                ),
                None => spec_parse_statement(toks_view(tokens@)) is None,
            }),
        decreases tssize(toks_view(tokens@)), 7int,
    {
        proof {
            crate::tokenizer::lemma_toks_view(tokens@);
        }
        let n = tokens.len();
        if n == 0 {
            return None;
        }
        let t0 = vstd::slice::slice_index_get(tokens, 0);
        let first_word_let = match &t0.kind {
            TokenType::String(s) => crate::strutil::str_eq(s.as_str(), "let"),
            _ => false,
        };
        if first_word_let {
            let eq = find_punct_exec(tokens, '=', 0);
            proof {
                lemma_find_punct(toks_view(tokens@), '=', 0);
            }
            if eq < n && eq > 1 && eq + 1 < n {
                let var_toks = vstd::slice::slice_subrange(tokens, 1, eq);
                let val_toks = vstd::slice::slice_subrange(tokens, eq + 1, n);
                proof {
                    assert(toks_view(var_toks@) =~= toks_view(tokens@).subrange(
                        1,
                        eq as int,
                    )) by {
                        crate::tokenizer::lemma_toks_view(var_toks@);
                    }
                    assert(toks_view(val_toks@) =~= toks_view(tokens@).subrange(
                        eq + 1,
                        tokens@.len() as int,
                    )) by {
                        crate::tokenizer::lemma_toks_view(val_toks@);
                    }
                    lemma_tssize_subrange(toks_view(tokens@), 1, eq as int);
                    lemma_tssize_subrange(toks_view(tokens@), eq + 1, tokens@.len() as int);
                    lemma_tssize_len(toks_view(tokens@));
                }
                match Reference::parse(var_toks) {
                    Some(Ok(var)) => match Value::parse(val_toks) {
                        Some(Ok(val)) => {
                            let ghost varv = ref_view(var);
                            let ghost valv = val_view(val);
                            let st = Statement::Assignment {
                                var,
                                val,
                                pos: t0.pos.clone(),
                            };
                            proof {
                                assert(stmt_view(st) =~= (StmtV::Assignment {
                                    var: varv,
                                    val: valv,
                                    pos: toks_view(tokens@)[0].pos,
                                }));
                            }
                            return Some(Ok(st));
                        },
                        Some(Err(e)) => {
                            return Some(Err(e));
                        },
                        None => {},
                    },
                    Some(Err(e)) => {
                        return Some(Err(e));
                    },
                    None => {},
                }
            }
        }
        let first_word_include = match &t0.kind {
            TokenType::String(s) => crate::strutil::str_eq(s.as_str(), "include"),
            _ => false,
        };
        if first_word_include {
            if n >= 2 {
                let t1 = vstd::slice::slice_index_get(tokens, 1);
                match &t1.kind {
                    TokenType::StringLit(p) => {
                        let file = resolve_include_exec(t1.pos.file.as_str(), p.as_str());
                        return Some(Ok(Statement::Include(file)));
                    },
                    _ => {
                        return Some(
                            Err(ParseError::new("Include expects a quoted file path", tokens)),
                        );
                    },
                }
            } else {
                return Some(
                    Err(ParseError::new("Include expects a quoted file path", tokens)),
                );
            }
        }
        match Value::parse(tokens) {
            Some(Ok(v)) => Some(Ok(Statement::Value(v))),
            Some(Err(e)) => Some(Err(e)),
            None => Some(Err(ParseError::new("Cannot parse into statement", tokens))),
        }
    }
}

/// The index of the last `/` strictly before `i`, mirroring `last_slash`.
fn last_slash_exec(chars: &Vec<char>, i: usize) -> (r: Option<usize>)
    requires
        i <= chars@.len(),
    ensures
        (match r {
            Some(k) => last_slash(chars@, i as int) == k && k < i,
            None => last_slash(chars@, i as int) == -1,
        }),
    decreases i,
{
    if i == 0 {
        None
    } else if chars[i - 1] == '/' {
        Some(i - 1)
    } else {
        last_slash_exec(chars, i - 1)
    }
}

/// The include path of `p`, resolved against the directory of `file`.
fn resolve_include_exec(file: &str, p: &str) -> (r: String)
    ensures
        r@ == resolve_include(file@, p@),
{
    let chars = crate::strutil::chars_of(file);
    let n = chars.len();
    match last_slash_exec(&chars, n) {
        None => p.to_owned(),
        Some(k) => {
            let dir = file.substring_char(0, k + 1);
            let mut out = dir.to_owned();
            out.append(p);
            out
        },
    }
}


/// The implicit result of an empty statement list: one `Nope` statement.
fn nope_statements() -> (r: Statements)
    ensures
        stmts_view(r) == (StmtsV { stmts: seq![StmtV::Value(ValV::Lit(LitV::Nope))] }),
{
    let mut v: Vec<Statement> = Vec::new();
    v.push(Statement::Value(Value::Lit(Literal::Nope)));
    let sts = Statements(v);
    proof {
        assert(sts.0@.drop_first() =~= Seq::<Statement>::empty());
        assert(stmt_seq_view(sts.0@.drop_first()) =~= Seq::<StmtV>::empty());
        assert(lit_view(Literal::Nope) == LitV::Nope);
        assert(val_view(Value::Lit(Literal::Nope)) == ValV::Lit(LitV::Nope));
        assert(stmt_view(sts.0@[0]) == StmtV::Value(ValV::Lit(LitV::Nope)));
        assert(stmt_seq_view(sts.0@) =~= seq![StmtV::Value(ValV::Lit(LitV::Nope))]);
    }
    sts
}

fn singleton_statements(st: Statement) -> (r: Statements)
    ensures
        stmts_view(r) == (StmtsV { stmts: seq![stmt_view(st)] }),
{
    let ghost sv = stmt_view(st);
    let mut v: Vec<Statement> = Vec::new();
    v.push(st);
    let sts = Statements(v);
    proof {
        assert(sts.0@.len() == 1);
        assert(sts.0@.drop_first() =~= Seq::<Statement>::empty());
        assert(stmt_seq_view(sts.0@.drop_first()) =~= Seq::<StmtV>::empty());
        assert(stmt_view(sts.0@[0]) == sv);
        assert(stmt_seq_view(sts.0@) =~= seq![sv]);
    }
    sts
}

fn cons_statements(st: Statement, more: Statements) -> (r: Statements)
    ensures
        stmts_view(r) == (StmtsV { stmts: seq![stmt_view(st)] + stmts_view(more).stmts }),
{
    let ghost sv = stmt_view(st);
    let ghost mv = more.0@;
    let Statements(mut v) = more;
    v.insert(0, st);
    let sts = Statements(v);
    proof {
        assert(sts.0@.drop_first() =~= mv);
        assert(stmt_view(sts.0@[0]) == sv);
        assert(stmt_seq_view(sts.0@) =~= seq![sv] + stmt_seq_view(mv));
    }
    sts
}

impl Statements {
    /// The slice split on every top-level `;`, each piece a statement, with
    /// an implicit `Nope` closing an empty final piece.
    #[verifier::rlimit(60)]
    pub fn parse(tokens: &[Token]) -> (r: Option<Result<Statements, ParseError>>)
        ensures
            (match r {
                Some(Ok(sts)) => spec_parse_statements(toks_view(tokens@)) == Ok::<
                    StmtsV,
                    TokErrV,
                >(stmts_view(sts)),
                Some(Err(e)) => spec_parse_statements(toks_view(tokens@)) == Err::<
                    StmtsV,
                    TokErrV,
                >(e@),
                None => false,
            }),
        decreases tssize(toks_view(tokens@)), 8int,
    {
        proof {
            crate::tokenizer::lemma_toks_view(tokens@);
            lemma_find_punct(toks_view(tokens@), ';', 0);
        }
        let n = tokens.len();
        let semi = find_punct_exec(tokens, ';', 0);
        if semi >= n {
            if n == 0 {
                return Some(Ok(nope_statements()));
            }
            return match Statement::parse(tokens) {
                Some(Ok(st)) => Some(Ok(singleton_statements(st))),
                Some(Err(e)) => Some(Err(e)),
                None => Some(Err(ParseError::new("Cannot parse into block", tokens))),
            };
        }
        let seg = vstd::slice::slice_subrange(tokens, 0, semi);
        let rest = vstd::slice::slice_subrange(tokens, semi + 1, n);
        proof {
            assert(toks_view(seg@) =~= toks_view(tokens@).subrange(0, semi as int)) by {
                crate::tokenizer::lemma_toks_view(seg@);
            }
            assert(toks_view(rest@) =~= toks_view(tokens@).subrange(
                semi + 1,
                tokens@.len() as int,
            )) by {
                crate::tokenizer::lemma_toks_view(rest@);
            }
            lemma_tssize_subrange(toks_view(tokens@), 0, semi as int);
            lemma_tssize_subrange(toks_view(tokens@), semi + 1, tokens@.len() as int);
            lemma_tssize_len(toks_view(tokens@));
        }
        if seg.len() == 0 {
            return Some(Err(ParseError::new("Cannot parse into a statement", tokens)));
        }
        match Statement::parse(seg) {
            Some(Ok(st)) => match Statements::parse(rest) {
                Some(Ok(more)) => Some(Ok(cons_statements(st, more))),
                Some(Err(e)) => Some(Err(e)),
                None => None,  // unreachable: the mirror always answers
            },
            Some(Err(e)) => Some(Err(e)),
            None => Some(Err(ParseError::new("Cannot parse into a statement", seg))),
        }
    }
}

/// Parses a whole file's tokens into its statement sequence, wrapping any
/// parse error as the driver's error type.
pub fn parse_file(tokens: Vec<Token>) -> (r: Result<Statements, crate::SandError>)
    ensures
        (match r {
            Ok(sts) => spec_parse_statements(toks_view(tokens@)) == Ok::<StmtsV, TokErrV>(
                stmts_view(sts),
            ),
            Err(e) => {
                &&& spec_parse_statements(toks_view(tokens@)) matches Err(pe)
                &&& e@.msg == "PARSE_ERROR: "@ + pe.msg
                &&& e@.pos == pe.pos
            },
        }),
{
    match Statements::parse(tokens.as_slice()) {
        Some(Ok(sts)) => Ok(sts),
        Some(Err(e)) => Err(crate::SandError::from_parse(e)),
        None => Err(
            crate::SandError::from_parse(
                ParseError { msg: "File cannot be parsed".to_owned(), pos: FilePos::temp() },
            ),
        ),
    }
}

} // verus!

