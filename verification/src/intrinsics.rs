//! The intrinsics registry: builds the seed scope, one record per primitive
//! type name holding that type's native methods, plus the `Main` namespace.
//! Each builder's contract gives the exact map the scope starts with.
use vstd::prelude::*;

use crate::interpreter::{internal_pos, ScV};
use crate::numerics::num_of_int;
use crate::types::{
    call_view, lit_view, scope_view, vars_view, CallV, Callable, Intrinsic, IntrinsicKind, IntrV,
    LitV, Literal, Scope, Var, VarV,
};

verus! {

/// A parameter name as intrinsics declare it.
pub open spec fn ivar(name: Seq<char>) -> VarV {
    VarV { name, pos: internal_pos() }
}

pub open spec fn intr0v(kind: IntrinsicKind) -> LitV {
    LitV::Fun(CallV::Intr(IntrV { args: Seq::empty(), kind }))
}

pub open spec fn intr1v(arg: Seq<char>, kind: IntrinsicKind) -> LitV {
    LitV::Fun(CallV::Intr(IntrV { args: seq![ivar(arg)], kind }))
}

pub open spec fn intr2v(a: Seq<char>, b: Seq<char>, kind: IntrinsicKind) -> LitV {
    LitV::Fun(CallV::Intr(IntrV { args: seq![ivar(a), ivar(b)], kind }))
}

/// The `Num` method table: arithmetic, comparison, iteration, rendering.
pub open spec fn spec_num_table() -> ScV {
    Map::empty().insert("add"@, intr1v("n"@, IntrinsicKind::NumAdd)).insert(
        "sub"@,
        intr1v("n"@, IntrinsicKind::NumSub),
    ).insert("mul"@, intr1v("n"@, IntrinsicKind::NumMul)).insert(
        "div"@,
        intr1v("n"@, IntrinsicKind::NumDiv),
    ).insert("mod"@, intr1v("n"@, IntrinsicKind::NumMod)).insert(
        "pow"@,
        intr1v("n"@, IntrinsicKind::NumPow),
    ).insert("eq"@, intr1v("n"@, IntrinsicKind::NumEq)).insert(
        "times"@,
        intr1v("f"@, IntrinsicKind::NumTimes),
    ).insert("to_str"@, intr0v(IntrinsicKind::NumToStr))
}

/// The `Main` namespace: stream constants, `write`, and the `dump` escape
/// hatch.
pub open spec fn spec_main_table() -> ScV {
    Map::empty().insert("STDOUT"@, LitV::Num(num_of_int(1))).insert(
        "STDERR"@,
        LitV::Num(num_of_int(2)),
    ).insert("write"@, intr2v("stream"@, "string"@, IntrinsicKind::MainWrite)).insert(
        "dump"@,
        intr0v(IntrinsicKind::MainDump),
    )
}

pub open spec fn spec_bool_table() -> ScV {
    Map::empty().insert("then"@, intr1v("f"@, IntrinsicKind::BoolThen))
}

/// The whole seed scope.
pub open spec fn spec_init_scope() -> ScV {
    Map::empty().insert("Main"@, LitV::Record(spec_main_table())).insert(
        "Nope"@,
        LitV::Record(Map::empty()),
    ).insert("Str"@, LitV::Record(Map::empty())).insert(
        "Num"@,
        LitV::Record(spec_num_table()),
    ).insert("Bool"@, LitV::Record(spec_bool_table())).insert(
        "Fun"@,
        LitV::Record(Map::empty()),
    )
}

fn intr0(kind: IntrinsicKind) -> (r: Literal)
    ensures
        lit_view(r) == intr0v(kind),
{
    let args: Vec<Var> = Vec::new();
    let c = Callable::Intr(Intrinsic { args, kind });
    proof {
        assert(vars_view(Seq::<Var>::empty()) =~= Seq::<VarV>::empty());
        assert(call_view(c) =~= CallV::Intr(IntrV { args: Seq::empty(), kind }));
    }
    Literal::Fun(c)
}

fn intr1(arg: &str, kind: IntrinsicKind) -> (r: Literal)
    ensures
        lit_view(r) == intr1v(arg@, kind),
{
    let mut args: Vec<Var> = Vec::new();
    args.push(Var::new(arg));
    proof {
        assert(args@.len() == 1);
        assert(args@.drop_first() =~= Seq::<Var>::empty());
        assert(vars_view(args@.drop_first()) =~= Seq::<VarV>::empty());
        assert(crate::types::var_view(args@[0]) =~= ivar(arg@));
        assert(vars_view(args@) =~= seq![ivar(arg@)]);
    }
    let c = Callable::Intr(Intrinsic { args, kind });
    proof {
        assert(call_view(c) =~= CallV::Intr(IntrV { args: seq![ivar(arg@)], kind }));
    }
    Literal::Fun(c)
}

fn intr2(a: &str, b: &str, kind: IntrinsicKind) -> (r: Literal)
    ensures
        lit_view(r) == intr2v(a@, b@, kind),
{
    let mut args: Vec<Var> = Vec::new();
    args.push(Var::new(a));
    args.push(Var::new(b));
    proof {
        assert(args@.len() == 2);
        assert(args@.drop_first().drop_first() =~= Seq::<Var>::empty());
        assert(vars_view(args@.drop_first().drop_first()) =~= Seq::<VarV>::empty());
        assert(crate::types::var_view(args@[0]) =~= ivar(a@));
        assert(crate::types::var_view(args@.drop_first()[0]) =~= ivar(b@));
        assert(vars_view(args@.drop_first()) =~= seq![ivar(b@)]);
        assert(vars_view(args@) =~= seq![ivar(a@), ivar(b@)]);
    }
    let c = Callable::Intr(Intrinsic { args, kind });
    proof {
        assert(call_view(c) =~= CallV::Intr(IntrV { args: seq![ivar(a@), ivar(b@)], kind }));
    }
    Literal::Fun(c)
}

/// The `Main` namespace record.
pub fn init_main() -> (r: Literal)
    ensures
        lit_view(r) == LitV::Record(spec_main_table()),
{
    let mut t = Scope::new();
    t.insert("STDOUT".to_owned(), Literal::Num(crate::numerics::bits_of_int(1)));
    t.insert("STDERR".to_owned(), Literal::Num(crate::numerics::bits_of_int(2)));
    t.insert("write".to_owned(), intr2("stream", "string", IntrinsicKind::MainWrite));
    t.insert("dump".to_owned(), intr0(IntrinsicKind::MainDump));
    proof {
        assert(scope_view(t) =~= spec_main_table());
    }
    Literal::Record(t)
}

/// The (empty) `Nope` method table.
pub fn init_nope() -> (r: Literal)
    ensures
        lit_view(r) == LitV::Record(Map::<Seq<char>, LitV>::empty()),
{
    Literal::Record(Scope::new())
}

/// The (empty) `Str` method table.
pub fn init_str() -> (r: Literal)
    ensures
        lit_view(r) == LitV::Record(Map::<Seq<char>, LitV>::empty()),
{
    Literal::Record(Scope::new())
}

/// The `Num` method table.
pub fn init_num() -> (r: Literal)
    ensures
        lit_view(r) == LitV::Record(spec_num_table()),
{
    let mut t = Scope::new();
    t.insert("add".to_owned(), intr1("n", IntrinsicKind::NumAdd));
    t.insert("sub".to_owned(), intr1("n", IntrinsicKind::NumSub));
    t.insert("mul".to_owned(), intr1("n", IntrinsicKind::NumMul));
    t.insert("div".to_owned(), intr1("n", IntrinsicKind::NumDiv));
    t.insert("mod".to_owned(), intr1("n", IntrinsicKind::NumMod));
    t.insert("pow".to_owned(), intr1("n", IntrinsicKind::NumPow));
    t.insert("eq".to_owned(), intr1("n", IntrinsicKind::NumEq));
    t.insert("times".to_owned(), intr1("f", IntrinsicKind::NumTimes));
    t.insert("to_str".to_owned(), intr0(IntrinsicKind::NumToStr));
    proof {
        assert(scope_view(t) =~= spec_num_table());
    }
    Literal::Record(t)
}

/// The `Bool` method table.
pub fn init_bool() -> (r: Literal)
    ensures
        lit_view(r) == LitV::Record(spec_bool_table()),
{
    let mut t = Scope::new();
    t.insert("then".to_owned(), intr1("f", IntrinsicKind::BoolThen));
    proof {
        assert(scope_view(t) =~= spec_bool_table());
    }
    Literal::Record(t)
}

/// The (empty) `Fun` method table.
pub fn init_fun() -> (r: Literal)
    ensures
        lit_view(r) == LitV::Record(Map::<Seq<char>, LitV>::empty()),
{
    Literal::Record(Scope::new())
}

/// The scope every program starts from.
pub fn init_scope() -> (sc: Scope)
    ensures
        scope_view(sc) == spec_init_scope(),
{
    let mut sc = Scope::new();
    sc.insert("Main".to_owned(), init_main());
    sc.insert("Nope".to_owned(), init_nope());
    sc.insert("Str".to_owned(), init_str());
    sc.insert("Num".to_owned(), init_num());
    sc.insert("Bool".to_owned(), init_bool());
    sc.insert("Fun".to_owned(), init_fun());
    proof {
        assert(scope_view(sc) =~= spec_init_scope());
    }
    sc
}

} // verus!
