//! The evaluator: walks the statement tree against a mutable scope,
//! producing a literal or an error.  Each step of the executable evaluator
//! is verified against the spec mirror `spec_interp_*`, which states, for
//! every node, scope and recursion budget, the exact result and the exact
//! scope after the step.
use vstd::prelude::*;

use std::io::Write;

use crate::tokenizer::TokErrV;
use crate::types::{
    call_view, lit_view, ref_view, scope_view, stmt_seq_view, stmt_view, stmts_view, val_view,
    vals_view, var_view, vars_view, CallV, Callable, IntrinsicKind, LitV, Literal, RefV,
    Reference, Scope, Statement, Statements, StmtV, StmtsV, temp_pos, ValV, Value, Var, VarV,
};
use crate::{FilePos, PosV};

verus! {

/// The error for a failure during evaluation.
#[derive(Debug)]
pub struct InterpretingError {
    pub msg: String,
    pub pos: FilePos,
}

impl View for InterpretingError {
    type V = TokErrV;

    open spec fn view(&self) -> TokErrV {
        TokErrV { msg: self.msg@, pos: self.pos@ }
    }
}

impl InterpretingError {
    pub fn new(msg: &str, pos: &FilePos) -> (e: Self)
        ensures
            e@.msg == msg@ && e@.pos == pos@,
    {
        InterpretingError { msg: msg.to_owned(), pos: pos.clone() }
    }
}

/// The scope as the spec sees it.
pub type ScV = Map<Seq<char>, LitV>;

/// The pre-loaded include files as the spec sees them: path to parsed body.
pub type IncV = Map<Seq<char>, StmtsV>;

/// One evaluation step's outcome: the result and the scope after the step.
#[verifier::ext_equal]
pub struct EvalOut {
    pub res: Result<LitV, TokErrV>,
    pub sc: ScV,
}

pub open spec fn ierr(msg: Seq<char>, pos: PosV) -> Result<LitV, TokErrV> {
    Err(TokErrV { msg, pos })
}

/// The position of values the evaluator itself creates.
pub open spec fn internal_pos() -> PosV {
    PosV { file: "internal"@, row: 0, col: 0 }
}

// ---------------------------------------------------------------------------
// Node sizes, for termination of the mirror.
// ---------------------------------------------------------------------------
pub open spec fn size_ref(r: RefV) -> nat
    decreases r,
{
    match r {
        RefV::Var(_) => 1,
        RefV::Member { set, .. } => 1 + size_val(*set),
    }
}

pub open spec fn size_val(v: ValV) -> nat
    decreases v,
{
    match v {
        ValV::Lit(_) => 1,
        ValV::Ref(r) => 1 + size_ref(r),
        ValV::FunCall { fun, params, .. } => 1 + size_val(*fun) + size_vals(params),
    }
}

pub open spec fn size_vals(vs: Seq<ValV>) -> nat
    decreases vs,
{
    if vs.len() == 0 {
        0
    } else {
        size_val(vs[0]) + size_vals(vs.drop_first())
    }
}

pub open spec fn size_stmt(s: StmtV) -> nat
    decreases s,
{
    match s {
        StmtV::Assignment { var, val, .. } => 1 + size_ref(var) + size_val(val),
        StmtV::Value(v) => 1 + size_val(v),
        StmtV::Include(_) => 1,
    }
}

pub open spec fn size_stmts(ss: Seq<StmtV>) -> nat
    decreases ss,
{
    if ss.len() == 0 {
        0
    } else {
        size_stmt(ss[0]) + size_stmts(ss.drop_first())
    }
}

pub open spec fn size_call(c: CallV) -> nat {
    match c {
        CallV::Fun(f) => 1 + size_stmts(f.body.stmts),
        CallV::Intr(_) => 1,
    }
}

pub proof fn lemma_size_val_pos(v: ValV)
    ensures
        size_val(v) >= 1,
{
}

pub proof fn lemma_size_stmt_pos(s: StmtV)
    ensures
        size_stmt(s) >= 1,
{
}

// ---------------------------------------------------------------------------
// The spec mirror of evaluation.
// ---------------------------------------------------------------------------
/// Looks a name up in the scope's view; absence is the caller's error.
pub open spec fn sc_get(sc: ScV, name: Seq<char>) -> Option<LitV> {
    if sc.contains_key(name) {
        Some(sc[name])
    } else {
        None
    }
}

/// The primitive method table for a non-record receiver: the receiver is
/// bound as `self`, and the global record under the type's name is the set
/// to query.  A character or list receiver falls back to the `Nope` table.
pub open spec fn dispatch_table(lit: LitV, sc: ScV) -> (Option<Seq<char>>, ScV) {
    match lit {
        LitV::Nope => (Some("Nope"@), sc.insert("self"@, lit)),
        LitV::Str(_) => (Some("Str"@), sc.insert("self"@, lit)),
        LitV::Num(_) => (Some("Num"@), sc.insert("self"@, lit)),
        LitV::Bool(_) => (Some("Bool"@), sc.insert("self"@, lit)),
        LitV::Fun(_) => (Some("Fun"@), sc.insert("self"@, lit)),
        LitV::Char(_) => (Some("Nope"@), sc.insert("self"@, lit)),
        LitV::List(_) => (Some("Nope"@), sc.insert("self"@, lit)),
        LitV::Record(_) => (None, sc),
    }
}

pub open spec fn spec_interp_ref(r: RefV, sc: ScV, inc: IncV, budget: nat) -> EvalOut
    decreases budget, size_ref(r), 0int,
{
    match r {
        RefV::Var(v) => match sc_get(sc, v.name) {
            Some(l) => EvalOut { res: Ok(l), sc },
            None => EvalOut { res: ierr("Variable not in scope"@, v.pos), sc },
        },
        RefV::Member { set, field, pos } => {
            let out = spec_interp_val(*set, sc, inc, budget);
            match out.res {
                Err(e) => EvalOut { res: Err(e), sc: out.sc },
                Ok(lit) => match lit {
                    LitV::Record(m) => if m.contains_key(field.name) {
                        EvalOut { res: Ok(m[field.name]), sc: out.sc }
                    } else {
                        EvalOut {
                            res: ierr("Set has no such member"@, field.pos),
                            sc: out.sc,
                        }
                    },
                    _ => {
                        let (tname, sc2) = dispatch_table(lit, out.sc);
                        match tname {
                            None => EvalOut { res: ierr("Set has no such member"@, field.pos), sc: sc2 },
                            Some(tn) => match sc_get(sc2, tn) {
                                None => EvalOut {
                                    res: ierr("Variable not in scope"@, pos),
                                    sc: sc2,
                                },
                                Some(LitV::Record(table)) => if table.contains_key(field.name) {
                                    EvalOut { res: Ok(table[field.name]), sc: sc2 }
                                } else {
                                    EvalOut {
                                        res: ierr("Set has no such member"@, field.pos),
                                        sc: sc2,
                                    }
                                },
                                Some(_) => EvalOut {
                                    res: ierr("Literal is not a set"@, temp_pos()),
                                    sc: sc2,
                                },
                            },
                        }
                    },
                },
            }
        },
    }
}

pub open spec fn spec_interp_val(v: ValV, sc: ScV, inc: IncV, budget: nat) -> EvalOut
    decreases budget, size_val(v), 1int,
{
    match v {
        ValV::Lit(l) => EvalOut { res: Ok(l), sc },
        ValV::Ref(r) => spec_interp_ref(r, sc, inc, budget),
        ValV::FunCall { fun, params, pos } => {
            let fout = spec_interp_val(*fun, sc, inc, budget);
            match fout.res {
                Err(e) => EvalOut { res: Err(e), sc: fout.sc },
                Ok(flit) => match flit {
                    LitV::Fun(c) => {
                        let names = crate::types::callable_arg_names(c);
                        if names.len() != params.len() {
                            EvalOut { res: ierr("Mismatched arity"@, temp_pos()), sc: fout.sc }
                        } else {
                            let aout = spec_interp_args(params, names, fout.sc, fout.sc, inc, budget);
                            match aout.res {
                                Err(e) => EvalOut { res: Err(e), sc: aout.sc },
                                Ok(fsc) => {
                                    if budget == 0 {
                                        EvalOut {
                                            res: ierr("Evaluation budget exhausted"@, temp_pos()),
                                            sc: aout.sc,
                                        }
                                    } else {
                                        EvalOut {
                                            res: spec_interp_call(c, fsc, inc, (budget - 1) as nat),
                                            sc: aout.sc,
                                        }
                                    }
                                },
                            }
                        }
                    },
                    _ => EvalOut {
                        res: ierr("Literal is not a function"@, temp_pos()),
                        sc: fout.sc,
                    },
                },
            }
        },
    }
}

/// Argument evaluation: each argument runs in the caller's evolving scope,
/// and its value is bound to the matching parameter name in the call scope.
/// The result carries the call scope; `sc` in the output is the caller's
/// scope after the evaluations.
#[verifier::ext_equal]
pub struct ArgsOut {
    pub res: Result<ScV, TokErrV>,
    pub sc: ScV,
}

pub open spec fn spec_interp_args(
    params: Seq<ValV>,
    names: Seq<VarV>,
    sc: ScV,
    fsc: ScV,
    inc: IncV,
    budget: nat,
) -> ArgsOut
    decreases budget, size_vals(params), 2int,
    via spec_interp_args_dec
{
    if params.len() == 0 || names.len() == 0 {
        ArgsOut { res: Ok(fsc), sc }
    } else {
        let out = spec_interp_val(params[0], sc, inc, budget);
        match out.res {
            Err(e) => ArgsOut { res: Err(e), sc: out.sc },
            Ok(v) => spec_interp_args(
                params.drop_first(),
                names.drop_first(),
                out.sc,
                fsc.insert(names[0].name, v),
                inc,
                budget,
            ),
        }
    }
}

#[via_fn]
proof fn spec_interp_args_dec(
    params: Seq<ValV>,
    names: Seq<VarV>,
    sc: ScV,
    fsc: ScV,
    inc: IncV,
    budget: nat,
) {
    if params.len() > 0 {
        lemma_size_val_pos(params[0]);
    }
}

pub open spec fn spec_interp_stmt(s: StmtV, sc: ScV, inc: IncV, budget: nat) -> EvalOut
    decreases budget, size_stmt(s), 3int,
{
    match s {
        StmtV::Value(v) => spec_interp_val(v, sc, inc, budget),
        StmtV::Assignment { var, val, pos } => match var {
            RefV::Var(v) => {
                // the right-hand side runs in a throwaway copy of the scope
                let out = spec_interp_val(val, sc, inc, budget);
                match out.res {
                    Err(e) => EvalOut { res: Err(e), sc },
                    Ok(x) => EvalOut { res: Ok(LitV::Nope), sc: sc.insert(v.name, x) },
                }
            },
            RefV::Member { set, field, pos: mpos } => match *set {
                ValV::Ref(RefV::Var(base)) => match sc_get(sc, base.name) {
                    None => EvalOut { res: ierr("Variable not in scope"@, base.pos), sc },
                    Some(LitV::Record(parent)) => {
                        // here the right-hand side runs in the scope itself
                        let out = spec_interp_val(val, sc, inc, budget);
                        match out.res {
                            Err(e) => EvalOut { res: Err(e), sc: out.sc },
                            Ok(x) => EvalOut {
                                res: Ok(LitV::Nope),
                                sc: out.sc.insert(
                                    base.name,
                                    LitV::Record(parent.insert(field.name, x)),
                                ),
                            },
                        }
                    },
                    Some(_) => EvalOut { res: ierr("Literal is not a set"@, temp_pos()), sc },
                },
                _ => EvalOut {
                    res: ierr("Complex referencing is not supported yet"@, mpos),
                    sc,
                },
            },
        },
        StmtV::Include(p) => {
            if budget == 0 {
                EvalOut { res: ierr("Evaluation budget exhausted"@, temp_pos()), sc }
            } else if inc.contains_key(p) {
                spec_interp_stmts(inc[p].stmts, sc, inc, (budget - 1) as nat)
            } else {
                EvalOut { res: ierr("Cannot include file"@, temp_pos()), sc }
            }
        },
    }
}

/// Every statement but the last runs for its effect; the last one's result
/// is the sequence's result.  An empty sequence, which the parser never
/// produces, yields `Nope`.
pub open spec fn spec_interp_stmts(ss: Seq<StmtV>, sc: ScV, inc: IncV, budget: nat) -> EvalOut
    decreases budget, size_stmts(ss), 4int,
    via spec_interp_stmts_dec
{
    if ss.len() == 0 {
        EvalOut { res: Ok(LitV::Nope), sc }
    } else if ss.len() == 1 {
        spec_interp_stmt(ss[0], sc, inc, budget)
    } else {
        let out = spec_interp_stmt(ss[0], sc, inc, budget);
        match out.res {
            Err(e) => EvalOut { res: Err(e), sc: out.sc },
            Ok(_) => spec_interp_stmts(ss.drop_first(), out.sc, inc, budget),
        }
    }
}

#[via_fn]
proof fn spec_interp_stmts_dec(ss: Seq<StmtV>, sc: ScV, inc: IncV, budget: nat) {
    if ss.len() > 0 {
        lemma_size_stmt_pos(ss[0]);
    }
}

/// Running a callable against its call scope: a user function runs its
/// body; a native method runs its tagged native behaviour.
pub open spec fn spec_interp_call(c: CallV, fsc: ScV, inc: IncV, budget: nat) -> Result<
    LitV,
    TokErrV,
>
    decreases budget, size_call(c), 5int,
{
    match c {
        CallV::Fun(f) => spec_interp_stmts(f.body.stmts, fsc, inc, budget).res,
        CallV::Intr(i) => spec_run_intrinsic(i.kind, fsc, inc, budget),
    }
}

/// Reads a named parameter out of the call scope at number type.
pub open spec fn scope_num(fsc: ScV, name: Seq<char>) -> Result<u64, TokErrV> {
    match sc_get(fsc, name) {
        None => ierr_u64("Variable not in scope"@, temp_pos()),
        Some(LitV::Num(b)) => Ok(b),
        Some(_) => ierr_u64("Literal is not a number"@, temp_pos()),
    }
}

pub open spec fn ierr_u64(msg: Seq<char>, pos: PosV) -> Result<u64, TokErrV> {
    Err(TokErrV { msg, pos })
}

/// Reads a named parameter as a whole-number count.
pub open spec fn scope_int(fsc: ScV, name: Seq<char>) -> Result<i64, TokErrV> {
    match sc_get(fsc, name) {
        None => Err(TokErrV { msg: "Variable not in scope"@, pos: temp_pos() }),
        Some(LitV::Num(b)) => if crate::numerics::num_is_whole(b) {
            Ok(crate::numerics::int_of_num(b))
        } else {
            Err(TokErrV { msg: "Number is not an integer"@, pos: temp_pos() })
        },
        Some(_) => Err(TokErrV { msg: "Literal is not a number"@, pos: temp_pos() }),
    }
}

/// A `self.op(n)` arithmetic method: both operands read at number type, the
/// result produced by the named double operation.
pub open spec fn spec_num_binop(kind: IntrinsicKind, a: u64, b: u64) -> LitV {
    match kind {
        IntrinsicKind::NumAdd => LitV::Num(crate::numerics::num_add(a, b)),
        IntrinsicKind::NumSub => LitV::Num(crate::numerics::num_sub(a, b)),
        IntrinsicKind::NumMul => LitV::Num(crate::numerics::num_mul(a, b)),
        IntrinsicKind::NumDiv => LitV::Num(crate::numerics::num_div(a, b)),
        IntrinsicKind::NumMod => LitV::Num(crate::numerics::num_rem(a, b)),
        IntrinsicKind::NumPow => LitV::Num(crate::numerics::num_pow(a, b)),
        _ => LitV::Bool(crate::numerics::num_eq(a, b)),
    }
}

pub open spec fn is_num_binop(kind: IntrinsicKind) -> bool {
    ||| kind == IntrinsicKind::NumAdd
    ||| kind == IntrinsicKind::NumSub
    ||| kind == IntrinsicKind::NumMul
    ||| kind == IntrinsicKind::NumDiv
    ||| kind == IntrinsicKind::NumMod
    ||| kind == IntrinsicKind::NumPow
    ||| kind == IntrinsicKind::NumEq
}

/// The call node `times`/`then` build to re-enter evaluation: applying the
/// callback literal `f` to the given arguments.
pub open spec fn callback_node(f: LitV, args: Seq<ValV>) -> ValV {
    ValV::FunCall {
        fun: Box::new(ValV::Lit(f)),
        params: args,
        pos: internal_pos(),
    }
}

/// `self.times(f)`: calls `f` once per integer `0..self`, each time against
/// a copy of the call scope, discarding results; an error in the callback
/// stops the loop and propagates.
pub open spec fn spec_times_loop(
    count: int,
    i: int,
    f: LitV,
    fsc: ScV,
    inc: IncV,
    budget: nat,
) -> Result<LitV, TokErrV>
    decreases budget, count - i, 7int,
{
    if i >= count {
        Ok(LitV::Nope)
    } else if budget == 0 {
        Err(TokErrV { msg: "Evaluation budget exhausted"@, pos: temp_pos() })
    } else {
        let node = callback_node(
            f,
            seq![ValV::Lit(LitV::Num(crate::numerics::num_of_int(i as i64)))],
        );
        let out = spec_interp_val(node, fsc, inc, (budget - 1) as nat);
        match out.res {
            Err(e) => Err(e),
            Ok(_) => spec_times_loop(count, i + 1, f, fsc, inc, budget),
        }
    }
}

/// What each native method returns, as a function of the call scope.
pub open spec fn spec_run_intrinsic(kind: IntrinsicKind, fsc: ScV, inc: IncV, budget: nat) -> Result<
    LitV,
    TokErrV,
>
    decreases budget, 0int, 6int,
{
    if is_num_binop(kind) {
        match scope_num(fsc, "self"@) {
            Err(e) => Err(e),
            Ok(a) => match scope_num(fsc, "n"@) {
                Err(e) => Err(e),
                Ok(b) => Ok(spec_num_binop(kind, a, b)),
            },
        }
    } else if kind == IntrinsicKind::NumToStr {
        match scope_num(fsc, "self"@) {
            Err(e) => Err(e),
            Ok(a) => Ok(LitV::Str(crate::numerics::text_of_num(a))),
        }
    } else if kind == IntrinsicKind::NumTimes {
        match scope_int(fsc, "self"@) {
            Err(e) => Err(e),
            Ok(count) => match sc_get(fsc, "f"@) {
                None => Err(TokErrV { msg: "Variable not in scope"@, pos: temp_pos() }),
                Some(f) => if budget == 0 {
                    Err(TokErrV { msg: "Evaluation budget exhausted"@, pos: temp_pos() })
                } else {
                    spec_times_loop(count as int, 0, f, fsc, inc, (budget - 1) as nat)
                },
            },
        }
    } else if kind == IntrinsicKind::BoolThen {
        match sc_get(fsc, "self"@) {
            None => Err(TokErrV { msg: "Variable not in scope"@, pos: temp_pos() }),
            Some(LitV::Bool(b)) => if !b {
                Ok(LitV::Nope)
            } else {
                match sc_get(fsc, "f"@) {
                    None => Err(TokErrV { msg: "Variable not in scope"@, pos: temp_pos() }),
                    Some(f) => if budget == 0 {
                        Err(TokErrV { msg: "Evaluation budget exhausted"@, pos: temp_pos() })
                    } else {
                        let out = spec_interp_val(
                            callback_node(f, Seq::empty()),
                            fsc,
                            inc,
                            (budget - 1) as nat,
                        );
                        match out.res {
                            Err(e) => Err(e),
                            Ok(_) => Ok(LitV::Nope),
                        }
                    },
                }
            },
            Some(_) => Err(TokErrV { msg: "Literal is not a boolean"@, pos: temp_pos() }),
        }
    } else if kind == IntrinsicKind::MainWrite {
        match scope_int(fsc, "stream"@) {
            Err(e) => Err(e),
            Ok(stream) => match sc_get(fsc, "string"@) {
                None => Err(TokErrV { msg: "Variable not in scope"@, pos: temp_pos() }),
                Some(LitV::Str(_)) => if stream == 1 || stream == 2 {
                    Ok(LitV::Nope)
                } else {
                    Err(TokErrV { msg: "Unknown stream"@, pos: temp_pos() })
                },
                Some(_) => Err(TokErrV { msg: "Literal is not a string"@, pos: temp_pos() }),
            },
        }
    } else {
        // MainDump: prints the live scope and deliberately fails
        Err(TokErrV { msg: "Exiting after dumping scope"@, pos: internal_pos() })
    }
}

// ---------------------------------------------------------------------------
// Pre-loaded include files.
// ---------------------------------------------------------------------------
/// The parsed bodies of the files an `include` statement may splice in,
/// keyed by resolved path.  The loader outside the library fills it; the
/// evaluator only reads it.
pub struct IncludeTable {
    pub entries: Vec<(String, Statements)>,
}

pub open spec fn inc_entries_map(es: Seq<(String, Statements)>) -> IncV
    decreases es,
{
    if es.len() == 0 {
        Map::empty()
    } else {
        inc_entries_map(es.drop_last()).insert(es.last().0@, stmts_view(es.last().1))
    }
}

pub open spec fn inc_view(t: IncludeTable) -> IncV {
    inc_entries_map(t.entries@)
}

proof fn lemma_inc_map_found(es: Seq<(String, Statements)>, j: int)
    requires
        0 <= j < es.len(),
        forall|i: int| j < i < es.len() ==> es[i].0@ != es[j].0@,
    ensures
        inc_entries_map(es).contains_key(es[j].0@),
        inc_entries_map(es)[es[j].0@] == stmts_view(es[j].1),
    decreases es.len(),
{
    if j < es.len() - 1 {
        assert(es.drop_last()[j] == es[j]);
        lemma_inc_map_found(es.drop_last(), j);
    }
}

proof fn lemma_inc_map_absent(es: Seq<(String, Statements)>, k: Seq<char>)
    requires
        forall|i: int| 0 <= i < es.len() ==> es[i].0@ != k,
    ensures
        !inc_entries_map(es).contains_key(k),
    decreases es.len(),
{
    if es.len() > 0 {
        lemma_inc_map_absent(es.drop_last(), k);
    }
}

impl IncludeTable {
    pub fn new() -> (t: Self)
        ensures
            inc_view(t) == Map::<Seq<char>, StmtsV>::empty(),
    {
        IncludeTable { entries: Vec::new() }
    }

    /// Adds a loaded file; a later entry for the same path wins.
    pub fn insert(&mut self, path: String, body: Statements)
        ensures
            inc_view(*final(self)) == inc_view(*old(self)).insert(path@, stmts_view(body)),
    {
        let ghost es0 = self.entries@;
        self.entries.push((path, body));
        proof {
            assert(self.entries@.drop_last() =~= es0);
        }
    }

    pub fn get(&self, path: &str) -> (r: Option<&Statements>)
        ensures
            (match r {
                Some(sts) => inc_view(*self).contains_key(path@) && stmts_view(*sts) == inc_view(
                    *self,
                )[path@],
                None => !inc_view(*self).contains_key(path@),
            }),
    {
        let n = self.entries.len();
        let mut i: usize = n;
        while i > 0
            invariant
                i <= n,
                n == self.entries@.len(),
                forall|k: int| i <= k < n ==> self.entries@[k].0@ != path@,
            decreases i,
        {
            i = i - 1;
            if crate::strutil::str_eq(self.entries[i].0.as_str(), path) {
                proof {
                    lemma_inc_map_found(self.entries@, i as int);
                }
                return Some(&self.entries[i].1);
            }
        }
        proof {
            lemma_inc_map_absent(self.entries@, path@);
        }
        None
    }
}

// ---------------------------------------------------------------------------
// The executable evaluator.
// ---------------------------------------------------------------------------
/// Relies on std::io: writes the line to standard output.
#[verifier::external_body]
fn print_stdout(s: &str) {
    let mut o = std::io::stdout();
    let _ = writeln!(o, "{}", s);
}

/// Relies on std::io: writes the line to standard error.
#[verifier::external_body]
fn print_stderr(s: &str) {
    let mut o = std::io::stderr();
    let _ = writeln!(o, "{}", s);
}

/// Relies on std::io and the derived `Debug` rendering: prints one scope
/// binding while the scope is dumped.
#[verifier::external_body]
fn print_binding(name: &str, val: &Literal) {
    let mut o = std::io::stdout();
    let _ = writeln!(o, "== {}: {:?}", name, val);
}

impl Reference {
    /// Reads the place this reference names: a scope lookup, or member
    /// dispatch against a record or a primitive's global method table.
    pub fn interpret(&self, scope: &mut Scope, inc: &IncludeTable, budget: u64) -> (r: Result<
        Literal,
        InterpretingError,
    >)
        ensures
            ({
                let out = spec_interp_ref(
                    ref_view(*self),
                    scope_view(*old(scope)),
                    inc_view(*inc),
                    budget as nat,
                );
                scope_view(*final(scope)) == out.sc && (match r {
                    Ok(l) => out.res == Ok::<LitV, TokErrV>(lit_view(l)),
                    Err(e) => out.res == Err::<LitV, TokErrV>(e@),
                })
            }),
        decreases budget, size_ref(ref_view(*self)), 0int,
    {
        match self {
            Reference::Var(v) => match scope.get(v.name.as_str()) {
                Some(l) => Ok(l.clone()),
                None => Err(InterpretingError::new("Variable not in scope", &v.pos)),
            },
            Reference::Member { set, field, pos } => {
                let lit = match set.interpret(scope, inc, budget) {
                    Ok(l) => l,
                    Err(e) => {
                        return Err(e);
                    },
                };
                match lit {
                    Literal::Record(m) => match m.get(field.name.as_str()) {
                        Some(x) => Ok(x.clone()),
                        None => Err(InterpretingError::new("Set has no such member", &field.pos)),
                    },
                    other => {
                        let tname: &str = match &other {
                            Literal::Str(_) => "Str",
                            Literal::Num(_) => "Num",
                            Literal::Bool(_) => "Bool",
                            Literal::Fun(_) => "Fun",
                            _ => "Nope",
                        };
                        scope.insert("self".to_owned(), other);
                        match scope.get(tname) {
                            None => Err(InterpretingError::new("Variable not in scope", pos)),
                            Some(t) => match t {
                                Literal::Record(table) => match table.get(field.name.as_str()) {
                                    Some(x) => Ok(x.clone()),
                                    None => Err(
                                        InterpretingError::new(
                                            "Set has no such member",
                                            &field.pos,
                                        ),
                                    ),
                                },
                                _ => Err(
                                    InterpretingError::new(
                                        "Literal is not a set",
                                        &FilePos::temp(),
                                    ),
                                ),
                            },
                        }
                    },
                }
            },
        }
    }
}

/// Binds each evaluated argument to its parameter name in the call scope;
/// the arguments themselves run in the caller's scope, in order.
fn interpret_args(
    params: &[Value],
    names: &[Var],
    scope: &mut Scope,
    fsc: &mut Scope,
    inc: &IncludeTable,
    budget: u64,
) -> (r: Result<(), InterpretingError>)
    ensures
        ({
            let aout = spec_interp_args(
                vals_view(params@),
                vars_view(names@),
                scope_view(*old(scope)),
                scope_view(*old(fsc)),
                inc_view(*inc),
                budget as nat,
            );
            scope_view(*final(scope)) == aout.sc && (match r {
                Ok(_) => aout.res == Ok::<ScV, TokErrV>(scope_view(*final(fsc))),
                Err(e) => aout.res == Err::<ScV, TokErrV>(e@),
            })
        }),
    decreases budget, size_vals(vals_view(params@)), 2int,
{
    proof {
        crate::types::lemma_vals_view(params@);
        crate::types::lemma_vars_view(names@);
    }
    if params.len() == 0 || names.len() == 0 {
        return Ok(());
    }
    let p0 = vstd::slice::slice_index_get(params, 0);
    let n0 = vstd::slice::slice_index_get(names, 0);
    proof {
        lemma_size_val_pos(vals_view(params@)[0]);
        assert(vals_view(params@)[0] == val_view(*p0));
    }
    let v = match p0.interpret(scope, inc, budget) {
        Ok(v) => v,
        Err(e) => {
            return Err(e);
        },
    };
    fsc.insert(n0.name.clone(), v);
    let ps = vstd::slice::slice_subrange(params, 1, params.len());
    let ns = vstd::slice::slice_subrange(names, 1, names.len());
    proof {
        assert(vals_view(ps@) =~= vals_view(params@).drop_first()) by {
            crate::types::lemma_vals_view(ps@);
            assert(ps@ =~= params@.drop_first());
        }
        assert(vars_view(ns@) =~= vars_view(names@).drop_first()) by {
            crate::types::lemma_vars_view(ns@);
            assert(ns@ =~= names@.drop_first());
        }
    }
    interpret_args(ps, ns, scope, fsc, inc, budget)
}

impl Value {
    /// Evaluates an expression: a literal is itself, a reference is read,
    /// and an application calls its callee with a full copy of the caller's
    /// scope as the call scope.
    pub fn interpret(&self, scope: &mut Scope, inc: &IncludeTable, budget: u64) -> (r: Result<
        Literal,
        InterpretingError,
    >)
        ensures
            ({
                let out = spec_interp_val(
                    val_view(*self),
                    scope_view(*old(scope)),
                    inc_view(*inc),
                    budget as nat,
                );
                scope_view(*final(scope)) == out.sc && (match r {
                    Ok(l) => out.res == Ok::<LitV, TokErrV>(lit_view(l)),
                    Err(e) => out.res == Err::<LitV, TokErrV>(e@),
                })
            }),
        decreases budget, size_val(val_view(*self)), 1int,
    {
        match self {
            Value::Lit(l) => Ok(l.clone()),
            Value::Ref(r) => r.interpret(scope, inc, budget),
            Value::FunCall { fun, params, pos } => {
                let flit = match fun.interpret(scope, inc, budget) {
                    Ok(l) => l,
                    Err(e) => {
                        return Err(e);
                    },
                };
                let c = match flit {
                    Literal::Fun(c) => c,
                    _ => {
                        return Err(
                            InterpretingError::new("Literal is not a function", &FilePos::temp()),
                        );
                    },
                };
                let names = c.get_args();
                proof {
                    crate::types::lemma_vals_view(params@);
                }
                if names.len() != params.len() {
                    return Err(InterpretingError::new("Mismatched arity", &FilePos::temp()));
                }
                let mut fsc = scope.clone();
                let res = interpret_args(
                    params.as_slice(),
                    names.as_slice(),
                    scope,
                    &mut fsc,
                    inc,
                    budget,
                );
                match res {
                    Err(e) => Err(e),
                    Ok(_) => {
                        if budget == 0 {
                            return Err(
                                InterpretingError::new(
                                    "Evaluation budget exhausted",
                                    &FilePos::temp(),
                                ),
                            );
                        }
                        c.interpret(&mut fsc, inc, budget - 1)
                    },
                }
            },
        }
    }
}

impl Callable {
    /// Runs a callable against its call scope: a user function's body, or a
    /// native method.
    pub fn interpret(&self, fsc: &mut Scope, inc: &IncludeTable, budget: u64) -> (r: Result<
        Literal,
        InterpretingError,
    >)
        ensures
            ({
                let res = spec_interp_call(
                    call_view(*self),
                    scope_view(*old(fsc)),
                    inc_view(*inc),
                    budget as nat,
                );
                match r {
                    Ok(l) => res == Ok::<LitV, TokErrV>(lit_view(l)),
                    Err(e) => res == Err::<LitV, TokErrV>(e@),
                }
            }),
        decreases budget, size_call(call_view(*self)), 5int,
    {
        match self {
            Callable::Fun(f) => f.body.interpret(fsc, inc, budget),
            Callable::Intr(i) => run_intrinsic(i.kind, fsc, inc, budget),
        }
    }
}

impl Statements {
    /// Runs every statement but the last for its effect, then the last one
    /// for the sequence's result.
    pub fn interpret(&self, scope: &mut Scope, inc: &IncludeTable, budget: u64) -> (r: Result<
        Literal,
        InterpretingError,
    >)
        ensures
            ({
                let out = spec_interp_stmts(
                    stmts_view(*self).stmts,
                    scope_view(*old(scope)),
                    inc_view(*inc),
                    budget as nat,
                );
                scope_view(*final(scope)) == out.sc && (match r {
                    Ok(l) => out.res == Ok::<LitV, TokErrV>(lit_view(l)),
                    Err(e) => out.res == Err::<LitV, TokErrV>(e@),
                })
            }),
        decreases budget, size_stmts(stmts_view(*self).stmts), 5int,
    {
        proof {
            crate::types::lemma_stmt_seq_view(self.0@);
        }
        interpret_stmt_slice(self.0.as_slice(), scope, inc, budget)
    }
}

fn interpret_stmt_slice(ss: &[Statement], scope: &mut Scope, inc: &IncludeTable, budget: u64) -> (r:
    Result<Literal, InterpretingError>)
    ensures
        ({
            let out = spec_interp_stmts(
                stmt_seq_view(ss@),
                scope_view(*old(scope)),
                inc_view(*inc),
                budget as nat,
            );
            scope_view(*final(scope)) == out.sc && (match r {
                Ok(l) => out.res == Ok::<LitV, TokErrV>(lit_view(l)),
                Err(e) => out.res == Err::<LitV, TokErrV>(e@),
            })
        }),
    decreases budget, size_stmts(stmt_seq_view(ss@)), 4int,
{
    proof {
        crate::types::lemma_stmt_seq_view(ss@);
    }
    if ss.len() == 0 {
        return Ok(Literal::Nope);
    }
    let s0 = vstd::slice::slice_index_get(ss, 0);
    proof {
        lemma_size_stmt_pos(stmt_seq_view(ss@)[0]);
        assert(stmt_seq_view(ss@)[0] == stmt_view(*s0));
    }
    if ss.len() == 1 {
        return s0.interpret(scope, inc, budget);
    }
    match s0.interpret(scope, inc, budget) {
        Err(e) => Err(e),
        Ok(_) => {
            let rest = vstd::slice::slice_subrange(ss, 1, ss.len());
            proof {
                assert(stmt_seq_view(rest@) =~= stmt_seq_view(ss@).drop_first()) by {
                    crate::types::lemma_stmt_seq_view(rest@);
                    assert(rest@ =~= ss@.drop_first());
                }
            }
            interpret_stmt_slice(rest, scope, inc, budget)
        },
    }
}

impl Statement {
    /// Runs one statement: an assignment binds, an include splices a
    /// pre-loaded file, a bare value evaluates.
    pub fn interpret(&self, scope: &mut Scope, inc: &IncludeTable, budget: u64) -> (r: Result<
        Literal,
        InterpretingError,
    >)
        ensures
            ({
                let out = spec_interp_stmt(
                    stmt_view(*self),
                    scope_view(*old(scope)),
                    inc_view(*inc),
                    budget as nat,
                );
                scope_view(*final(scope)) == out.sc && (match r {
                    Ok(l) => out.res == Ok::<LitV, TokErrV>(lit_view(l)),
                    Err(e) => out.res == Err::<LitV, TokErrV>(e@),
                })
            }),
        decreases budget, size_stmt(stmt_view(*self)), 3int,
    {
        match self {
            Statement::Value(v) => v.interpret(scope, inc, budget),
            Statement::Assignment { var, val, pos } => match var {
                Reference::Var(v) => {
                    let mut copy = scope.clone();
                    match val.interpret(&mut copy, inc, budget) {
                        Err(e) => Err(e),
                        Ok(x) => {
                            scope.insert(v.name.clone(), x);
                            Ok(Literal::Nope)
                        },
                    }
                },
                Reference::Member { set, field, pos: mpos } => {
                    let base: &Var = match &(**set) {
                        Value::Ref(Reference::Var(b)) => b,
                        _ => {
                            return Err(
                                InterpretingError::new(
                                    "Complex referencing is not supported yet",
                                    mpos,
                                ),
                            );
                        },
                    };
                    let mut parent: Scope = match scope.get(base.name.as_str()) {
                        None => {
                            return Err(
                                InterpretingError::new("Variable not in scope", &base.pos),
                            );
                        },
                        Some(l) => match l {
                            Literal::Record(p) => p.clone(),
                            _ => {
                                return Err(
                                    InterpretingError::new(
                                        "Literal is not a set",
                                        &FilePos::temp(),
                                    ),
                                );
                            },
                        },
                    };
                    match val.interpret(scope, inc, budget) {
                        Err(e) => Err(e),
                        Ok(x) => {
                            parent.insert(field.name.clone(), x);
                            scope.insert(base.name.clone(), Literal::Record(parent));
                            Ok(Literal::Nope)
                        },
                    }
                },
            },
            Statement::Include(p) => {
                if budget == 0 {
                    return Err(
                        InterpretingError::new("Evaluation budget exhausted", &FilePos::temp()),
                    );
                }
                match inc.get(p.as_str()) {
                    Some(body) => body.interpret(scope, inc, budget - 1),
                    None => Err(InterpretingError::new("Cannot include file", &FilePos::temp())),
                }
            },
        }
    }
}

/// Reads a named call-scope entry at number type, as the numeric intrinsics
/// do.
fn fetch_num(fsc: &Scope, name: &str) -> (r: Result<u64, InterpretingError>)
    ensures
        (match r {
            Ok(b) => scope_num(scope_view(*fsc), name@) == Ok::<u64, TokErrV>(b),
            Err(e) => scope_num(scope_view(*fsc), name@) == Err::<u64, TokErrV>(e@),
        }),
{
    match fsc.get(name) {
        None => Err(InterpretingError::new("Variable not in scope", &FilePos::temp())),
        Some(l) => match l {
            Literal::Num(b) => Ok(*b),
            _ => Err(InterpretingError::new("Literal is not a number", &FilePos::temp())),
        },
    }
}

/// Reads a named call-scope entry as a whole-number count.
fn fetch_int(fsc: &Scope, name: &str) -> (r: Result<i64, InterpretingError>)
    ensures
        (match r {
            Ok(n) => scope_int(scope_view(*fsc), name@) == Ok::<i64, TokErrV>(n),
            Err(e) => scope_int(scope_view(*fsc), name@) == Err::<i64, TokErrV>(e@),
        }),
{
    match fsc.get(name) {
        None => Err(InterpretingError::new("Variable not in scope", &FilePos::temp())),
        Some(l) => match l {
            Literal::Num(b) => {
                if crate::numerics::whole_bits(*b) {
                    Ok(crate::numerics::int_bits(*b))
                } else {
                    Err(InterpretingError::new("Number is not an integer", &FilePos::temp()))
                }
            },
            _ => Err(InterpretingError::new("Literal is not a number", &FilePos::temp())),
        },
    }
}

/// The callback application node `times` and `then` re-enter evaluation
/// with.
fn build_callback(f: &Literal, args: Vec<Value>) -> (r: Value)
    ensures
        val_view(r) == callback_node(lit_view(*f), vals_view(args@)),
{
    let ghost fv = lit_view(*f);
    let ghost av = vals_view(args@);
    let fc = f.clone();
    let funv = Value::Lit(fc);
    proof {
        assert(val_view(funv) == ValV::Lit(fv));
    }
    let r = Value::FunCall {
        fun: Box::new(funv),
        params: args,
        pos: FilePos::internal(),
    };
    proof {
        assert(val_view(r) =~= callback_node(fv, av));
    }
    r
}

fn times_loop(
    count: i64,
    i: i64,
    f: &Literal,
    fsc: &Scope,
    inc: &IncludeTable,
    budget: u64,
) -> (r: Result<Literal, InterpretingError>)
    ensures
        (match r {
            Ok(l) => spec_times_loop(
                count as int,
                i as int,
                lit_view(*f),
                scope_view(*fsc),
                inc_view(*inc),
                budget as nat,
            ) == Ok::<LitV, TokErrV>(lit_view(l)),
            Err(e) => spec_times_loop(
                count as int,
                i as int,
                lit_view(*f),
                scope_view(*fsc),
                inc_view(*inc),
                budget as nat,
            ) == Err::<LitV, TokErrV>(e@),
        }),
    decreases budget, count - i, 7int,
{
    if i >= count {
        return Ok(Literal::Nope);
    }
    if budget == 0 {
        return Err(InterpretingError::new("Evaluation budget exhausted", &FilePos::temp()));
    }
    let bits = crate::numerics::bits_of_int(i);
    let arg0 = Value::Lit(Literal::Num(bits));
    proof {
        assert(lit_view(Literal::Num(bits)) == LitV::Num(crate::numerics::num_of_int(i)));
        assert(val_view(arg0) == ValV::Lit(LitV::Num(crate::numerics::num_of_int(i))));
    }
    let ghost a0v = val_view(arg0);
    let mut args: Vec<Value> = Vec::new();
    args.push(arg0);
    proof {
        assert(args@.len() == 1);
        assert(args@.drop_first() =~= Seq::<Value>::empty());
        assert(vals_view(args@.drop_first()) =~= Seq::<ValV>::empty());
        assert(val_view(args@[0]) == a0v);
        assert(vals_view(args@) =~= seq![
            ValV::Lit(LitV::Num(crate::numerics::num_of_int(i))),
        ]);
    }
    let node = build_callback(f, args);
    let mut copy = fsc.clone();
    match node.interpret(&mut copy, inc, budget - 1) {
        Err(e) => Err(e),
        Ok(_) => times_loop(count, i + 1, f, fsc, inc, budget),
    }
}

/// Runs one native method against its call scope.
fn run_intrinsic(kind: IntrinsicKind, fsc: &Scope, inc: &IncludeTable, budget: u64) -> (r: Result<
    Literal,
    InterpretingError,
>)
    ensures
        ({
            let res = spec_run_intrinsic(kind, scope_view(*fsc), inc_view(*inc), budget as nat);
            match r {
                Ok(l) => res == Ok::<LitV, TokErrV>(lit_view(l)),
                Err(e) => res == Err::<LitV, TokErrV>(e@),
            }
        }),
    decreases budget, 0int, 6int,
{
    match kind {
        IntrinsicKind::NumAdd | IntrinsicKind::NumSub | IntrinsicKind::NumMul
            | IntrinsicKind::NumDiv | IntrinsicKind::NumMod | IntrinsicKind::NumPow
            | IntrinsicKind::NumEq => {
            let a = match fetch_num(fsc, "self") {
                Ok(a) => a,
                Err(e) => {
                    return Err(e);
                },
            };
            let b = match fetch_num(fsc, "n") {
                Ok(b) => b,
                Err(e) => {
                    return Err(e);
                },
            };
            Ok(
                match kind {
                    IntrinsicKind::NumAdd => Literal::Num(crate::numerics::add_bits(a, b)),
                    IntrinsicKind::NumSub => Literal::Num(crate::numerics::sub_bits(a, b)),
                    IntrinsicKind::NumMul => Literal::Num(crate::numerics::mul_bits(a, b)),
                    IntrinsicKind::NumDiv => Literal::Num(crate::numerics::div_bits(a, b)),
                    IntrinsicKind::NumMod => Literal::Num(crate::numerics::rem_bits(a, b)),
                    IntrinsicKind::NumPow => Literal::Num(crate::numerics::pow_bits(a, b)),
                    _ => Literal::Bool(crate::numerics::eq_bits(a, b)),
                },
            )
        },
        IntrinsicKind::NumToStr => {
            let a = match fetch_num(fsc, "self") {
                Ok(a) => a,
                Err(e) => {
                    return Err(e);
                },
            };
            Ok(Literal::Str(crate::numerics::text_bits(a)))
        },
        IntrinsicKind::NumTimes => {
            let count = match fetch_int(fsc, "self") {
                Ok(n) => n,
                Err(e) => {
                    return Err(e);
                },
            };
            let f = match fsc.get("f") {
                Some(f) => f.clone(),
                None => {
                    return Err(
                        InterpretingError::new("Variable not in scope", &FilePos::temp()),
                    );
                },
            };
            if budget == 0 {
                return Err(
                    InterpretingError::new("Evaluation budget exhausted", &FilePos::temp()),
                );
            }
            times_loop(count, 0, &f, fsc, inc, budget - 1)
        },
        IntrinsicKind::BoolThen => {
            let b = match fsc.get("self") {
                None => {
                    return Err(
                        InterpretingError::new("Variable not in scope", &FilePos::temp()),
                    );
                },
                Some(l) => match l {
                    Literal::Bool(b) => *b,
                    _ => {
                        return Err(
                            InterpretingError::new("Literal is not a boolean", &FilePos::temp()),
                        );
                    },
                },
            };
            if !b {
                return Ok(Literal::Nope);
            }
            let f = match fsc.get("f") {
                Some(f) => f.clone(),
                None => {
                    return Err(
                        InterpretingError::new("Variable not in scope", &FilePos::temp()),
                    );
                },
            };
            if budget == 0 {
                return Err(
                    InterpretingError::new("Evaluation budget exhausted", &FilePos::temp()),
                );
            }
            let node = build_callback(&f, Vec::new());
            proof {
                assert(vals_view(Seq::<Value>::empty()) =~= Seq::<ValV>::empty());
            }
            let mut copy = fsc.clone();
            match node.interpret(&mut copy, inc, budget - 1) {
                Err(e) => Err(e),
                Ok(_) => Ok(Literal::Nope),
            }
        },
        IntrinsicKind::MainWrite => {
            let stream = match fetch_int(fsc, "stream") {
                Ok(n) => n,
                Err(e) => {
                    return Err(e);
                },
            };
            match fsc.get("string") {
                None => Err(InterpretingError::new("Variable not in scope", &FilePos::temp())),
                Some(l) => match l {
                    Literal::Str(s) => {
                        if stream == 1 {
                            print_stdout(s.as_str());
                            Ok(Literal::Nope)
                        } else if stream == 2 {
                            print_stderr(s.as_str());
                            Ok(Literal::Nope)
                        } else {
                            Err(InterpretingError::new("Unknown stream", &FilePos::temp()))
                        }
                    },
                    _ => Err(
                        InterpretingError::new("Literal is not a string", &FilePos::temp()),
                    ),
                },
            }
        },
        IntrinsicKind::MainDump => {
            print_stdout("Dumping scope:");
            let n = fsc.entries.len();
            let mut i: usize = 0;
            while i < n
                invariant
                    n == fsc.entries@.len(),
                    i <= n,
                decreases n - i,
            {
                print_binding(fsc.entries[i].0.as_str(), &fsc.entries[i].1);
                i = i + 1;
            }
            Err(InterpretingError::new("Exiting after dumping scope", &FilePos::internal()))
        },
    }
}

/// The whole pipeline on one piece of source text: tokenize, parse, and run
/// against the seeded scope.  The contract composes the three stages' spec
/// mirrors exactly, with each stage's error carried out under its kind.
pub fn run_str(src: &str, pos: FilePos, inc: &IncludeTable, budget: u64) -> (r: Result<
    Literal,
    crate::SandError,
>)
    requires
        pos@.row + src@.len() <= usize::MAX,
        pos@.col + src@.len() <= usize::MAX,
    ensures
        (match crate::tokenizer::spec_tokenize(src@, pos@) {
            crate::tokenizer::TokRes::Fail(te) => r matches Err(e) && e@.msg == "TOKEN_ERROR: "@
                + te.msg && e@.pos == te.pos,
            crate::tokenizer::TokRes::Done(ts) => match crate::parser::spec_parse_statements(ts) {
                Err(pe) => r matches Err(e) && e@.msg == "PARSE_ERROR: "@ + pe.msg && e@.pos
                    == pe.pos,
                Ok(prog) => {
                    let out = spec_interp_stmts(
                        prog.stmts,
                        crate::intrinsics::spec_init_scope(),
                        inc_view(*inc),
                        budget as nat,
                    );
                    match out.res {
                        Ok(l) => r matches Ok(x) && lit_view(x) == l,
                        Err(ie) => r matches Err(e) && e@.msg == "INTERPRETING_ERROR: "@ + ie.msg
                            && e@.pos == ie.pos,
                    }
                },
            },
        }),
{
    let toks = match crate::tokenizer::tokenize_str(src, pos) {
        Ok(toks) => toks,
        Err(e) => {
            return Err(crate::SandError::from_token(e));
        },
    };
    let prog = match crate::parser::parse_file(toks) {
        Ok(prog) => prog,
        Err(e) => {
            return Err(e);
        },
    };
    let mut scope = crate::intrinsics::init_scope();
    match prog.interpret(&mut scope, inc, budget) {
        Ok(l) => Ok(l),
        Err(e) => Err(crate::SandError::from_interpreting(e)),
    }
}

/// The command-line arguments as one list literal.
pub open spec fn lits_of_strs(ss: Seq<Seq<char>>) -> Seq<LitV>
    decreases ss,
{
    if ss.len() == 0 {
        Seq::empty()
    } else {
        seq![LitV::Str(ss[0])] + lits_of_strs(ss.drop_first())
    }
}

/// The application node that invokes the program's `main` with the argument
/// list packaged as one list literal.
pub open spec fn main_call_node(f: LitV, args: Seq<Seq<char>>) -> ValV {
    ValV::FunCall {
        fun: Box::new(ValV::Lit(f)),
        params: seq![ValV::Lit(LitV::List(lits_of_strs(args)))],
        pos: internal_pos(),
    }
}

/// Runs a whole program, then invokes its `main` binding with the given
/// arguments and reads the returned number as the process exit code.  An
/// absent `main`, a failing call, or a result that is not a whole number is
/// the exact error the contract names.
pub fn run_main(src: &str, pos: FilePos, inc: &IncludeTable, args: &Vec<String>, budget: u64) -> (r:
    Result<i64, crate::SandError>)
    requires
        pos@.row + src@.len() <= usize::MAX,
        pos@.col + src@.len() <= usize::MAX,
    ensures
        (match crate::tokenizer::spec_tokenize(src@, pos@) {
            crate::tokenizer::TokRes::Fail(te) => r matches Err(e) && e@.msg == "TOKEN_ERROR: "@
                + te.msg && e@.pos == te.pos,
            crate::tokenizer::TokRes::Done(ts) => match crate::parser::spec_parse_statements(ts) {
                Err(pe) => r matches Err(e) && e@.msg == "PARSE_ERROR: "@ + pe.msg && e@.pos
                    == pe.pos,
                Ok(prog) => {
                    let out = spec_interp_stmts(
                        prog.stmts,
                        crate::intrinsics::spec_init_scope(),
                        inc_view(*inc),
                        budget as nat,
                    );
                    match out.res {
                        Err(ie) => r matches Err(e) && e@.msg == "INTERPRETING_ERROR: "@ + ie.msg
                            && e@.pos == ie.pos,
                        Ok(_) => match sc_get(out.sc, "main"@) {
                            None => r matches Err(e) && e@.msg == "INTERPRETING_ERROR: "@
                                + "Variable not in scope"@ && e@.pos == internal_pos(),
                            Some(mainlit) => {
                                let cout = spec_interp_val(
                                    main_call_node(mainlit, args.deep_view()),
                                    out.sc,
                                    inc_view(*inc),
                                    budget as nat,
                                );
                                match cout.res {
                                    Err(ie) => r matches Err(e) && e@.msg == "INTERPRETING_ERROR: "@
                                        + ie.msg && e@.pos == ie.pos,
                                    Ok(l) => match l {
                                        LitV::Num(b) => if crate::numerics::num_is_whole(b) {
                                            r matches Ok(n) && n == crate::numerics::int_of_num(b)
                                        } else {
                                            r matches Err(e) && e@.msg == "TYPE_ERROR: "@
                                                + "Number is not an integer"@ && e@.pos
                                                == temp_pos()
                                        },
                                        _ => r matches Err(e) && e@.msg == "TYPE_ERROR: "@
                                            + "Literal is not a number"@ && e@.pos == temp_pos(),
                                    },
                                }
                            },
                        },
                    }
                },
            },
        }),
{
    let toks = match crate::tokenizer::tokenize_str(src, pos) {
        Ok(toks) => toks,
        Err(e) => {
            return Err(crate::SandError::from_token(e));
        },
    };
    let prog = match crate::parser::parse_file(toks) {
        Ok(prog) => prog,
        Err(e) => {
            return Err(e);
        },
    };
    let mut scope = crate::intrinsics::init_scope();
    match prog.interpret(&mut scope, inc, budget) {
        Ok(_) => {},
        Err(e) => {
            return Err(crate::SandError::from_interpreting(e));
        },
    }
    let mainlit = match scope.get("main") {
        Some(l) => l.clone(),
        None => {
            return Err(
                crate::SandError::from_interpreting(
                    InterpretingError::new("Variable not in scope", &FilePos::internal()),
                ),
            );
        },
    };
    let n = args.len();
    let mut lits: Vec<Literal> = Vec::new();
    let mut i: usize = 0;
    while i < n
        invariant
            i <= n,
            n == args@.len(),
            lits@.len() == i,
            forall|k: int| 0 <= k < i ==> lit_view(lits@[k]) == LitV::Str(args@[k]@),
        decreases n - i,
    {
        lits.push(Literal::Str(args[i].clone()));
        i = i + 1;
    }
    proof {
        crate::types::lemma_lits_view(lits@);
        lemma_lits_of_strs(args.deep_view());
        assert(args.deep_view().len() == args@.len());
        assert(crate::types::lits_view(lits@) =~= lits_of_strs(args.deep_view()));
    }
    let inner = Literal::List(lits);
    proof {
        assert(lit_view(inner) == LitV::List(lits_of_strs(args.deep_view())));
    }
    let ghost iv = lit_view(inner);
    let arg0 = Value::Lit(inner);
    proof {
        assert(val_view(arg0) == ValV::Lit(iv));
    }
    let mut params: Vec<Value> = Vec::new();
    params.push(arg0);
    proof {
        assert(params@.len() == 1);
        assert(params@.drop_first() =~= Seq::<Value>::empty());
        assert(vals_view(params@.drop_first()) =~= Seq::<ValV>::empty());
        assert(val_view(params@[0]) == ValV::Lit(iv));
        assert(vals_view(params@) =~= seq![
            ValV::Lit(LitV::List(lits_of_strs(args.deep_view()))),
        ]);
    }
    let ghost mv = lit_view(mainlit);
    let fc = Value::Lit(mainlit);
    proof {
        assert(val_view(fc) == ValV::Lit(mv));
    }
    let call = Value::FunCall { fun: Box::new(fc), params, pos: FilePos::internal() };
    proof {
        assert(val_view(call) =~= main_call_node(mv, args.deep_view()));
    }
    let result = match call.interpret(&mut scope, inc, budget) {
        Ok(l) => l,
        Err(e) => {
            return Err(crate::SandError::from_interpreting(e));
        },
    };
    match result.as_int() {
        Ok(code) => Ok(code),
        Err(e) => Err(crate::SandError::from_type(e)),
    }
}

proof fn lemma_lits_of_strs(ss: Seq<Seq<char>>)
    ensures
        lits_of_strs(ss).len() == ss.len(),
        forall|i: int| 0 <= i < ss.len() ==> lits_of_strs(ss)[i] == LitV::Str(ss[i]),
    decreases ss.len(),
{
    if ss.len() > 0 {
        lemma_lits_of_strs(ss.drop_first());
    }
}

} // verus!
