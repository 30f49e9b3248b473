//! Laws of evaluation: what holds of every program, proved once from the
//! evaluator's spec mirror.
use vstd::prelude::*;

use crate::interpreter::{
    ierr, sc_get, size_ref, size_val, size_vals, spec_interp_args, spec_interp_ref,
    spec_interp_val, IncV, ScV,
};
use crate::tokenizer::{
    spec_push, spec_tok, spec_tokenize, FrameV, GroupType, TokErrV, TokRes, TokSt, TokTypeV, TokV,
};
use crate::types::{callable_arg_names, temp_pos, CallV, LitV, RefV, StmtV, ValV, VarV};
use crate::PosV;

verus! {

// ---------------------------------------------------------------------------
// Bracket round trip: tokenizing a well-formed bracket string rebuilds its
// group structure exactly.  Every well-formed bracket string is the
// rendering of exactly one forest of groups, so the law quantifies over
// those forests.
// ---------------------------------------------------------------------------
pub open spec fn open_char(g: GroupType) -> char {
    match g {
        GroupType::Paren => '(',
        GroupType::Brack => '[',
        GroupType::Curly => '{',
    }
}

pub open spec fn close_char(g: GroupType) -> char {
    match g {
        GroupType::Paren => ')',
        GroupType::Brack => ']',
        GroupType::Curly => '}',
    }
}

/// A token that is a group of groups all the way down: the tokens a pure
/// bracket string produces.
pub open spec fn pure_group(t: TokV) -> bool
    decreases t,
{
    match t.kind {
        TokTypeV::Group { gt, toks } => pure_groups(toks),
        _ => false,
    }
}

pub open spec fn pure_groups(ts: Seq<TokV>) -> bool
    decreases ts,
{
    ts.len() == 0 || (pure_group(ts[0]) && pure_groups(ts.drop_first()))
}

/// The bracket string a group forest renders to: one opener and one closer
/// per group, children in between.
pub open spec fn render_tok(t: TokV) -> Seq<char>
    decreases t,
{
    match t.kind {
        TokTypeV::Group { gt, toks } => seq![open_char(gt)] + render_toks(toks) + seq![
            close_char(gt),
        ],
        _ => Seq::empty(),
    }
}

pub open spec fn render_toks(ts: Seq<TokV>) -> Seq<char>
    decreases ts,
{
    if ts.len() == 0 {
        Seq::empty()
    } else {
        render_tok(ts[0]) + render_toks(ts.drop_first())
    }
}

/// The forest's tokens as the tokenizer rebuilds them at a given position:
/// the same shape, with each group stamped with its opener's column.
pub open spec fn retok_one(t: TokV, file: Seq<char>, row: int, col: int) -> TokV
    decreases t,
{
    match t.kind {
        TokTypeV::Group { gt, toks } => TokV {
            kind: TokTypeV::Group { gt, toks: retok_seq(toks, file, row, col + 1) },
            pos: PosV { file, row, col },
        },
        _ => t,
    }
}

pub open spec fn retok_seq(ts: Seq<TokV>, file: Seq<char>, row: int, col: int) -> Seq<TokV>
    decreases ts,
{
    if ts.len() == 0 {
        Seq::empty()
    } else {
        seq![retok_one(ts[0], file, row, col)] + retok_seq(
            ts.drop_first(),
            file,
            row,
            col + render_tok(ts[0]).len(),
        )
    }
}

/// Appending a run of finished tokens one by one.
pub open spec fn push_all(stack: Seq<FrameV>, out: Seq<TokV>, ts: Seq<TokV>) -> (Seq<FrameV>, Seq<
    TokV,
>)
    decreases ts,
{
    if ts.len() == 0 {
        (stack, out)
    } else {
        let (s2, o2) = spec_push(stack, out, ts[0]);
        push_all(s2, o2, ts.drop_first())
    }
}

proof fn lemma_push_all_top(stack: Seq<FrameV>, f: FrameV, out: Seq<TokV>, ts: Seq<TokV>)
    ensures
        push_all(stack.push(f), out, ts) == (
            stack.push(FrameV { gt: f.gt, pos: f.pos, toks: f.toks + ts }),
            out,
        ),
    decreases ts.len(),
{
    if ts.len() == 0 {
        assert(f.toks + ts =~= f.toks);
        assert(stack.push(FrameV { gt: f.gt, pos: f.pos, toks: f.toks + ts }) =~= stack.push(f));
    } else {
        let f2 = FrameV { gt: f.gt, pos: f.pos, toks: f.toks.push(ts[0]) };
        assert(stack.push(f).last() == f);
        assert(stack.push(f).drop_last() =~= stack);
        assert(stack.push(f).update(stack.push(f).len() - 1, f2) =~= stack.push(f2));
        lemma_push_all_top(stack, f2, out, ts.drop_first());
        assert(f.toks.push(ts[0]) + ts.drop_first() =~= f.toks + ts);
    }
}

proof fn lemma_push_all_out(out: Seq<TokV>, ts: Seq<TokV>)
    ensures
        push_all(Seq::empty(), out, ts) == (Seq::<FrameV>::empty(), out + ts),
    decreases ts.len(),
{
    if ts.len() == 0 {
        assert(out + ts =~= out);
    } else {
        lemma_push_all_out(out.push(ts[0]), ts.drop_first());
        assert(out.push(ts[0]) + ts.drop_first() =~= out + ts);
    }
}

/// Rebuilding a forest at any position keeps its rendering: the nesting
/// depth and the bracket kinds survive.
pub proof fn lemma_render_retok(ts: Seq<TokV>, file: Seq<char>, row: int, col: int)
    requires
        pure_groups(ts),
    ensures
        render_toks(retok_seq(ts, file, row, col)) == render_toks(ts),
        retok_seq(ts, file, row, col).len() == ts.len(),
    decreases ts,
{
    if ts.len() > 0 {
        lemma_render_retok_one(ts[0], file, row, col);
        lemma_render_retok(ts.drop_first(), file, row, col + render_tok(ts[0]).len());
        let r = retok_seq(ts, file, row, col);
        assert(r.drop_first() =~= retok_seq(ts.drop_first(), file, row, col + render_tok(
            ts[0],
        ).len()));
        assert(r[0] == retok_one(ts[0], file, row, col));
    }
}

proof fn lemma_render_retok_one(t: TokV, file: Seq<char>, row: int, col: int)
    requires
        pure_group(t),
    ensures
        render_tok(retok_one(t, file, row, col)) == render_tok(t),
    decreases t,
{
    match t.kind {
        TokTypeV::Group { gt, toks } => {
            lemma_render_retok(toks, file, row, col + 1);
        },
        _ => {},
    }
}

/// The induction behind the round trip: with a forest's rendering laid out
/// next in the input, the tokenizer reaches exactly the state in which that
/// forest's rebuilt tokens have been appended and the rendering consumed.
proof fn lemma_tok_forest(s: Seq<char>, start: PosV, st: TokSt, f: Seq<TokV>)
    requires
        pure_groups(f),
        0 <= st.i,
        st.i + render_toks(f).len() <= s.len(),
        s.subrange(st.i, st.i + render_toks(f).len()) == render_toks(f),
    ensures
        ({
            let m = render_toks(f).len() as int;
            let (stack2, out2) = push_all(
                st.stack,
                st.out,
                retok_seq(f, start.file, st.row, st.col),
            );
            spec_tok(s, start, st) == spec_tok(
                s,
                start,
                TokSt { i: st.i + m, row: st.row, col: st.col + m, stack: stack2, out: out2 },
            )
        }),
    decreases f,
{
    let m = render_toks(f).len() as int;
    if f.len() == 0 {
        let (stack2, out2) = push_all(st.stack, st.out, retok_seq(f, start.file, st.row, st.col));
        assert(TokSt { i: st.i + m, row: st.row, col: st.col + m, stack: stack2, out: out2 } =~= st);
    } else {
        let t = f[0];
        let rest = f.drop_first();
        assert(pure_group(t));
        assert(pure_groups(rest));
        match t.kind {
            TokTypeV::Group { gt, toks: children } => {
                assert(pure_groups(children));
                let rc = render_toks(children);
                let rt = render_tok(t);
                let rr = render_toks(rest);
                let n = rc.len() as int;
                assert(rt == seq![open_char(gt)] + rc + seq![close_char(gt)]);
                assert(rt.len() == n + 2);
                assert(render_toks(f) == rt + rr);
                let c = open_char(gt);
                assert(c == '(' || c == '[' || c == '{');
                assert(close_char(gt) == ')' || close_char(gt) == ']' || close_char(gt) == '}');
                assert(crate::tokenizer::group_of_char(c) == gt);
                assert(crate::tokenizer::group_of_char(close_char(gt)) == gt);

                // the opener, the children's rendering, and the closer sit
                // at their offsets in the input
                assert(s[st.i] == c) by {
                    assert(s.subrange(st.i, st.i + m)[0] == render_toks(f)[0]);
                    assert((seq![open_char(gt)] + rc + seq![close_char(gt)])[0] == c);
                }
                assert(s[st.i + 1 + n] == close_char(gt)) by {
                    assert(s.subrange(st.i, st.i + m)[1 + n] == render_toks(f)[1 + n]);
                    assert((rt + rr)[1 + n] == rt[1 + n]);
                    assert((seq![open_char(gt)] + rc + seq![close_char(gt)])[1 + n] == close_char(
                        gt,
                    ));
                }
                assert(s.subrange(st.i + 1, st.i + 1 + n) =~= rc) by {
                    assert forall|j: int| 0 <= j < n implies s.subrange(st.i + 1, st.i + 1 + n)[j]
                        == rc[j] by {
                        assert(s.subrange(st.i, st.i + m)[1 + j] == render_toks(f)[1 + j]);
                        assert((rt + rr)[1 + j] == rt[1 + j]);
                        assert((seq![open_char(gt)] + rc + seq![close_char(gt)])[1 + j] == rc[j]);
                    }
                }
                assert(s.subrange(st.i + n + 2, st.i + m) =~= rr) by {
                    assert forall|j: int| 0 <= j < rr.len() implies s.subrange(
                        st.i + n + 2,
                        st.i + m,
                    )[j] == rr[j] by {
                        assert(s.subrange(st.i, st.i + m)[n + 2 + j] == render_toks(f)[n + 2 + j]);
                        assert((rt + rr)[n + 2 + j] == rr[j]);
                    }
                }

                // the opener pushes a fresh frame
                let pos0 = PosV { file: start.file, row: st.row, col: st.col };
                let frame = FrameV { gt, pos: pos0, toks: Seq::empty() };
                let st1 = TokSt {
                    i: st.i + 1,
                    row: st.row,
                    col: st.col + 1,
                    stack: st.stack.push(frame),
                    out: st.out,
                };
                assert(spec_tok(s, start, st) == spec_tok(s, start, st1));

                // the children fill that frame
                lemma_tok_forest(s, start, st1, children);
                let ctoks = retok_seq(children, start.file, st.row, st.col + 1);
                lemma_push_all_top(st.stack, frame, st.out, ctoks);
                assert(Seq::<TokV>::empty() + ctoks =~= ctoks);
                let filled = FrameV { gt, pos: pos0, toks: ctoks };
                let st2 = TokSt {
                    i: st.i + 1 + n,
                    row: st.row,
                    col: st.col + 1 + n,
                    stack: st.stack.push(filled),
                    out: st.out,
                };
                assert(spec_tok(s, start, st1) == spec_tok(s, start, st2)) by {
                    let (cstack, cout) = push_all(st1.stack, st1.out, ctoks);
                    assert(cstack =~= st.stack.push(filled));
                    assert(TokSt {
                        i: st1.i + n,
                        row: st1.row,
                        col: st1.col + n,
                        stack: cstack,
                        out: cout,
                    } =~= st2);
                }

                // the closer pops it and emits the rebuilt group
                let gtok = TokV { kind: TokTypeV::Group { gt, toks: ctoks }, pos: pos0 };
                assert(gtok =~= retok_one(t, start.file, st.row, st.col));
                assert(st2.stack.last() == filled);
                assert(st2.stack.drop_last() =~= st.stack);
                let (s3, o3) = spec_push(st.stack, st.out, gtok);
                let st3 = TokSt {
                    i: st.i + n + 2,
                    row: st.row,
                    col: st.col + n + 2,
                    stack: s3,
                    out: o3,
                };
                assert(spec_tok(s, start, st2) == spec_tok(s, start, st3));

                // and the rest of the forest follows
                lemma_tok_forest(s, start, st3, rest);
                let rtoks = retok_seq(rest, start.file, st.row, st.col + n + 2);
                let (s4, o4) = push_all(s3, o3, rtoks);
                assert(spec_tok(s, start, st3) == spec_tok(
                    s,
                    start,
                    TokSt {
                        i: st.i + m,
                        row: st.row,
                        col: st.col + m,
                        stack: s4,
                        out: o4,
                    },
                ));

                // the whole forest's appended tokens are the group plus the rest's
                let ftoks = retok_seq(f, start.file, st.row, st.col);
                assert(ftoks == seq![retok_one(t, start.file, st.row, st.col)] + retok_seq(
                    rest,
                    start.file,
                    st.row,
                    st.col + rt.len(),
                ));
                assert(ftoks.len() > 0);
                assert(ftoks[0] == gtok);
                assert(ftoks.drop_first() =~= rtoks);
                assert(push_all(st.stack, st.out, ftoks) == (s4, o4));
            },
            _ => {
                assert(false);
            },
        }
    }
}

/// Round trip: tokenizing a well-formed bracket string succeeds, and the
/// rendered group structure of the tokens is the input again, so nesting
/// depth and bracket kind both survive.  A well-formed bracket string is
/// the rendering of a forest of groups, over which the law quantifies.
pub proof fn lemma_bracket_round_trip(f: Seq<TokV>, start: PosV)
    requires
        pure_groups(f),
    ensures
        spec_tokenize(render_toks(f), start) == TokRes::Done(
            retok_seq(f, start.file, start.row, start.col),
        ),
        render_toks(retok_seq(f, start.file, start.row, start.col)) == render_toks(f),
{
    let s = render_toks(f);
    let st0 = TokSt { i: 0, row: start.row, col: start.col, stack: Seq::empty(), out: Seq::empty() };
    assert(s.subrange(0, s.len() as int) =~= s);
    lemma_tok_forest(s, start, st0, f);
    let ftoks = retok_seq(f, start.file, start.row, start.col);
    lemma_push_all_out(Seq::empty(), ftoks);
    let (s2, o2) = push_all(st0.stack, st0.out, ftoks);
    assert(s2 =~= Seq::<FrameV>::empty());
    assert(o2 =~= ftoks);
    lemma_render_retok(f, start.file, start.row, start.col);
}

/// The scopes `a` and `b` bind every name but `key` identically.
pub open spec fn agrees_except(a: ScV, b: ScV, key: Seq<char>) -> bool {
    forall|n: Seq<char>| n != key ==> #[trigger] sc_get(a, n) == sc_get(b, n)
}

/// Evaluating a reference can change the evaluating scope only at `self`:
/// member dispatch on a primitive binds the receiver there, and nothing
/// else is ever written.
pub proof fn lemma_ref_touches_only_self(r: RefV, sc: ScV, inc: IncV, budget: nat)
    ensures
        agrees_except(spec_interp_ref(r, sc, inc, budget).sc, sc, "self"@),
    decreases budget, size_ref(r), 0int,
{
    match r {
        RefV::Var(_) => {},
        RefV::Member { set, .. } => {
            lemma_val_touches_only_self(*set, sc, inc, budget);
            let out0 = spec_interp_val(*set, sc, inc, budget);
            assert forall|n: Seq<char>| n != "self"@ implies #[trigger] sc_get(
                spec_interp_ref(r, sc, inc, budget).sc,
                n,
            ) == sc_get(sc, n) by {
                assert(sc_get(out0.sc, n) == sc_get(sc, n));
                assert(sc_get(out0.sc.insert("self"@, LitV::Nope), n) == sc_get(out0.sc, n));
            };
        },
    }
}

/// Evaluating any expression can change the evaluating scope only at
/// `self`.  In particular, a function call's body runs against a full copy
/// of the caller's scope, so whatever the body assigns never reaches the
/// caller: the language's copy-on-call rule.
pub proof fn lemma_val_touches_only_self(v: ValV, sc: ScV, inc: IncV, budget: nat)
    ensures
        agrees_except(spec_interp_val(v, sc, inc, budget).sc, sc, "self"@),
    decreases budget, size_val(v), 1int,
{
    match v {
        ValV::Lit(_) => {},
        ValV::Ref(r) => {
            lemma_ref_touches_only_self(r, sc, inc, budget);
        },
        ValV::FunCall { fun, params, .. } => {
            lemma_val_touches_only_self(*fun, sc, inc, budget);
            let fout = spec_interp_val(*fun, sc, inc, budget);
            match fout.res {
                Err(_) => {},
                Ok(flit) => match flit {
                    LitV::Fun(c) => {
                        let names = callable_arg_names(c);
                        if names.len() == params.len() {
                            lemma_args_touch_only_self(
                                params,
                                names,
                                fout.sc,
                                fout.sc,
                                inc,
                                budget,
                            );
                        }
                    },
                    _ => {},
                },
            }
        },
    }
}

/// Evaluating an argument list in the caller's scope can change that scope
/// only at `self`.
pub proof fn lemma_args_touch_only_self(
    params: Seq<ValV>,
    names: Seq<VarV>,
    sc: ScV,
    fsc: ScV,
    inc: IncV,
    budget: nat,
)
    ensures
        agrees_except(spec_interp_args(params, names, sc, fsc, inc, budget).sc, sc, "self"@),
    decreases budget, size_vals(params), 2int,
{
    if params.len() != 0 && names.len() != 0 {
        lemma_val_touches_only_self(params[0], sc, inc, budget);
        let out = spec_interp_val(params[0], sc, inc, budget);
        match out.res {
            Err(_) => {},
            Ok(v) => {
                crate::interpreter::lemma_size_val_pos(params[0]);
                lemma_args_touch_only_self(
                    params.drop_first(),
                    names.drop_first(),
                    out.sc,
                    fsc.insert(names[0].name, v),
                    inc,
                    budget,
                );
            },
        }
    }
}

/// Calling a callable with the wrong number of arguments always answers
/// with the mismatched-arity error — never with silent truncation — and
/// the caller's scope keeps every binding but `self`.
pub proof fn lemma_arity_mismatch(
    fun: ValV,
    params: Seq<ValV>,
    pos: PosV,
    sc: ScV,
    inc: IncV,
    budget: nat,
    c: CallV,
)
    requires
        spec_interp_val(fun, sc, inc, budget).res == Ok::<LitV, TokErrV>(LitV::Fun(c)),
        callable_arg_names(c).len() != params.len(),
    ensures
        spec_interp_val(ValV::FunCall { fun: Box::new(fun), params, pos }, sc, inc, budget).res
            == ierr("Mismatched arity"@, temp_pos()),
        agrees_except(
            spec_interp_val(ValV::FunCall { fun: Box::new(fun), params, pos }, sc, inc, budget).sc,
            sc,
            "self"@,
        ),
{
    lemma_val_touches_only_self(ValV::FunCall { fun: Box::new(fun), params, pos }, sc, inc, budget);
}

/// Assigning through `name.field`:
/// - when `name` is unbound, the statement fails and creates nothing;
/// - when `name` holds a record, `field` is added or overwritten in it and
///   every other field of the record keeps its value.
pub proof fn lemma_set_field_assignment(
    base: VarV,
    field: VarV,
    val: ValV,
    pos: PosV,
    mpos: PosV,
    sc: ScV,
    inc: IncV,
    budget: nat,
)
    ensures
        ({
            let st = StmtV::Assignment {
                var: RefV::Member {
                    set: Box::new(ValV::Ref(RefV::Var(base))),
                    field,
                    pos: mpos,
                },
                val,
                pos,
            };
            let out = crate::interpreter::spec_interp_stmt(st, sc, inc, budget);
            &&& !sc.contains_key(base.name) ==> out.res == ierr(
                "Variable not in scope"@,
                base.pos,
            ) && out.sc == sc
            &&& (sc.contains_key(base.name) && sc[base.name] is Record) ==> ({
                let parent = sc[base.name]->Record_0;
                match spec_interp_val(val, sc, inc, budget).res {
                Ok(x) => {
                    &&& out.res == Ok::<LitV, TokErrV>(LitV::Nope)
                    &&& out.sc.contains_key(base.name)
                    &&& out.sc[base.name] == LitV::Record(parent.insert(field.name, x))
                    &&& forall|f2: Seq<char>|
                        f2 != field.name ==> #[trigger] sc_get(
                            parent.insert(field.name, x),
                            f2,
                        ) == sc_get(parent, f2)
                },
                Err(e) => out.res == Err::<LitV, TokErrV>(e),
                }
            })
        }),
{
}

} // verus!
