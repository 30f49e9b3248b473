//! The grammar and runtime data model: tokens become values, references,
//! statements; evaluation produces literals.  Every type has a spec-level
//! view (`*V`), and the mutating operations carry contracts over those views.
use vstd::prelude::*;

use crate::{FilePos, PosV};

verus! {

/// The error for a literal read at the wrong type.
#[derive(Debug)]
pub struct TypeError {
    pub msg: String,
    pub pos: FilePos,
}

impl View for TypeError {
    type V = crate::tokenizer::TokErrV;

    open spec fn view(&self) -> crate::tokenizer::TokErrV {
        crate::tokenizer::TokErrV { msg: self.msg@, pos: self.pos@ }
    }
}

impl TypeError {
    pub fn new(msg: &str, pos: &FilePos) -> (e: Self)
        ensures
            e@.msg == msg@ && e@.pos == pos@,
    {
        TypeError { msg: msg.to_owned(), pos: pos.clone() }
    }
}

/// The position used by errors that have no better one.
pub open spec fn temp_pos() -> PosV {
    PosV { file: "undefined"@, row: 0, col: 0 }
}

/// The kinds of native methods the seed scope offers.  Each native body is
/// named by a tag and dispatched in the evaluator, so every one of them is
/// verified; a boxed closure would be opaque to the verifier.
#[derive(Debug, Clone, Copy, PartialEq, Eq, Structural)]
pub enum IntrinsicKind {
    NumAdd,
    NumSub,
    NumMul,
    NumDiv,
    NumMod,
    NumPow,
    NumEq,
    NumTimes,
    NumToStr,
    BoolThen,
    MainWrite,
    MainDump,
}

// ---------------------------------------------------------------------------
// Spec-level views.
// ---------------------------------------------------------------------------
#[verifier::ext_equal]
pub struct VarV {
    pub name: Seq<char>,
    pub pos: PosV,
}

#[verifier::ext_equal]
pub enum RefV {
    Var(VarV),
    Member { set: Box<ValV>, field: VarV, pos: PosV },
}

#[verifier::ext_equal]
pub enum ValV {
    Lit(LitV),
    Ref(RefV),
    FunCall { fun: Box<ValV>, params: Seq<ValV>, pos: PosV },
}

#[verifier::ext_equal]
pub enum StmtV {
    Assignment { var: RefV, val: ValV, pos: PosV },
    Value(ValV),
    Include(Seq<char>),
}

#[verifier::ext_equal]
pub struct StmtsV {
    pub stmts: Seq<StmtV>,
}

#[verifier::ext_equal]
pub enum LitV {
    Nope,
    Str(Seq<char>),
    Char(char),
    Num(u64),
    Bool(bool),
    List(Seq<LitV>),
    Fun(CallV),
    Record(Map<Seq<char>, LitV>),
}

#[verifier::ext_equal]
pub enum CallV {
    Fun(FunV),
    Intr(IntrV),
}

#[verifier::ext_equal]
pub struct FunV {
    pub args: Seq<VarV>,
    pub body: StmtsV,
    pub pos: PosV,
}

#[verifier::ext_equal]
pub struct IntrV {
    pub args: Seq<VarV>,
    pub kind: IntrinsicKind,
}

// ---------------------------------------------------------------------------
// Executable data model.
// ---------------------------------------------------------------------------
/// A bare name with the position it was written at.
#[derive(Debug, PartialEq)]
pub struct Var {
    pub name: String,
    pub pos: FilePos,
}

impl Var {
    pub fn new(name: &str) -> (v: Self)
        ensures
            v@.name == name@,
            v@.pos == (PosV { file: "internal"@, row: 0, col: 0 }),
    {
        Var { name: name.to_owned(), pos: FilePos::internal() }
    }

    pub fn get_name(&self) -> (r: String)
        ensures
            r@ == self@.name,
    {
        self.name.clone()
    }

    pub fn clone(&self) -> (r: Self)
        ensures
            r@ == self@,
    {
        Var { name: self.name.clone(), pos: self.pos.clone() }
    }
}

impl View for Var {
    type V = VarV;

    open spec fn view(&self) -> VarV {
        VarV { name: self.name@, pos: self.pos@ }
    }
}

/// A place to read or assign: a bare name, or a field of a computed value.
#[derive(Debug, PartialEq)]
pub enum Reference {
    Var(Var),
    Member { set: Box<Value>, field: Var, pos: FilePos },
}

/// An expression: a literal constant, a reference, or an application.
#[derive(Debug, PartialEq)]
pub enum Value {
    Lit(Literal),
    Ref(Reference),
    FunCall { fun: Box<Value>, params: Vec<Value>, pos: FilePos },
}

/// One statement: a `let` assignment, a bare expression, or an include.
#[derive(Debug, PartialEq)]
pub enum Statement {
    Assignment { var: Reference, val: Value, pos: FilePos },
    Value(Value),
    Include(String),
}

/// A non-empty ordered statement sequence; the last statement's result is the
/// sequence's result.
#[derive(Debug, PartialEq)]
pub struct Statements(pub Vec<Statement>);

/// A runtime value.  `Num` carries the IEEE-754 bit pattern of a double;
/// `Record` is the record type that also backs the primitive method tables.
#[derive(Debug, PartialEq)]
pub enum Literal {
    Nope,
    Str(String),
    Char(char),
    Num(u64),
    Bool(bool),
    List(Vec<Literal>),
    Fun(Callable),
    Record(Scope),
}

/// A callable value: a user function or a native method.
#[derive(Debug, PartialEq)]
pub enum Callable {
    Fun(Function),
    Intr(Intrinsic),
}

/// A user-defined function: parameter names and a statement body.
#[derive(Debug, PartialEq)]
pub struct Function {
    pub args: Vec<Var>,
    pub body: Statements,
    pub pos: FilePos,
}

/// A native method: parameter names and the tag saying which native body to
/// run.
#[derive(Debug, PartialEq)]
pub struct Intrinsic {
    pub args: Vec<Var>,
    pub kind: IntrinsicKind,
}

/// The name environment: an ordered list of bindings with pairwise-distinct
/// names, viewed as a map from name to value.  The same type backs the
/// language's `Set` records.
#[derive(Debug, PartialEq)]
pub struct Scope {
    pub entries: Vec<(String, Literal)>,
}

// ---------------------------------------------------------------------------
// View functions.
// ---------------------------------------------------------------------------
pub open spec fn var_view(v: Var) -> VarV {
    VarV { name: v.name@, pos: v.pos@ }
}

pub open spec fn vars_view(vs: Seq<Var>) -> Seq<VarV>
    decreases vs,
{
    if vs.len() == 0 {
        Seq::empty()
    } else {
        seq![var_view(vs[0])] + vars_view(vs.drop_first())
    }
}

pub open spec fn ref_view(r: Reference) -> RefV
    decreases r,
{
    match r {
        Reference::Var(v) => RefV::Var(var_view(v)),
        Reference::Member { set, field, pos } => RefV::Member {
            set: Box::new(val_view(*set)),
            field: var_view(field),
            pos: pos@,
        },
    }
}

pub open spec fn val_view(v: Value) -> ValV
    decreases v,
{
    match v {
        Value::Lit(l) => ValV::Lit(lit_view(l)),
        Value::Ref(r) => ValV::Ref(ref_view(r)),
        Value::FunCall { fun, params, pos } => ValV::FunCall {
            fun: Box::new(val_view(*fun)),
            params: vals_view(params@),
            pos: pos@,
        },
    }
}

pub open spec fn vals_view(vs: Seq<Value>) -> Seq<ValV>
    decreases vs,
{
    if vs.len() == 0 {
        Seq::empty()
    } else {
        seq![val_view(vs[0])] + vals_view(vs.drop_first())
    }
}

pub open spec fn stmt_view(s: Statement) -> StmtV
    decreases s,
{
    match s {
        Statement::Assignment { var, val, pos } => StmtV::Assignment {
            var: ref_view(var),
            val: val_view(val),
            pos: pos@,
        },
        Statement::Value(v) => StmtV::Value(val_view(v)),
        Statement::Include(p) => StmtV::Include(p@),
    }
}

pub open spec fn stmt_seq_view(ss: Seq<Statement>) -> Seq<StmtV>
    decreases ss,
{
    if ss.len() == 0 {
        Seq::empty()
    } else {
        seq![stmt_view(ss[0])] + stmt_seq_view(ss.drop_first())
    }
}

pub open spec fn stmts_view(ss: Statements) -> StmtsV
    decreases ss,
{
    StmtsV { stmts: stmt_seq_view(ss.0@) }
}

pub open spec fn lit_view(l: Literal) -> LitV
    decreases l,
{
    match l {
        Literal::Nope => LitV::Nope,
        Literal::Str(s) => LitV::Str(s@),
        Literal::Char(c) => LitV::Char(c),
        Literal::Num(b) => LitV::Num(b),
        Literal::Bool(b) => LitV::Bool(b),
        Literal::List(v) => LitV::List(lits_view(v@)),
        Literal::Fun(c) => LitV::Fun(call_view(c)),
        Literal::Record(sc) => LitV::Record(scope_view(sc)),
    }
}

pub open spec fn lits_view(vs: Seq<Literal>) -> Seq<LitV>
    decreases vs,
{
    if vs.len() == 0 {
        Seq::empty()
    } else {
        seq![lit_view(vs[0])] + lits_view(vs.drop_first())
    }
}

pub open spec fn call_view(c: Callable) -> CallV
    decreases c,
{
    match c {
        Callable::Fun(f) => CallV::Fun(fun_view(f)),
        Callable::Intr(i) => CallV::Intr(
            IntrV { args: vars_view(i.args@), kind: i.kind },
        ),
    }
}

pub open spec fn fun_view(f: Function) -> FunV
    decreases f,
{
    FunV { args: vars_view(f.args@), body: stmts_view(f.body), pos: f.pos@ }
}

/// A scope's entries as a map; a later binding for the same name wins,
/// though well-formed scopes never hold two bindings for one name.
pub open spec fn entries_map(es: Seq<(String, Literal)>) -> Map<Seq<char>, LitV>
    decreases es,
{
    if es.len() == 0 {
        Map::empty()
    } else {
        entries_map(es.drop_last()).insert(es.last().0@, lit_view(es.last().1))
    }
}

pub open spec fn scope_view(sc: Scope) -> Map<Seq<char>, LitV>
    decreases sc,
{
    entries_map(sc.entries@)
}

/// Pairwise-distinct binding names.
pub open spec fn scope_wf(sc: Scope) -> bool {
    forall|i: int, j: int|
        0 <= i < j < sc.entries@.len() ==> sc.entries@[i].0@ != sc.entries@[j].0@
}

// ---------------------------------------------------------------------------
// Lemmas about the sequence views and the entry map.
// ---------------------------------------------------------------------------
pub proof fn lemma_vars_view(vs: Seq<Var>)
    ensures
        vars_view(vs).len() == vs.len(),
        forall|i: int| 0 <= i < vs.len() ==> vars_view(vs)[i] == var_view(vs[i]),
    decreases vs.len(),
{
    if vs.len() > 0 {
        lemma_vars_view(vs.drop_first());
    }
}


pub proof fn lemma_vals_view(vs: Seq<Value>)
    ensures
        vals_view(vs).len() == vs.len(),
        forall|i: int| 0 <= i < vs.len() ==> vals_view(vs)[i] == val_view(vs[i]),
    decreases vs.len(),
{
    if vs.len() > 0 {
        lemma_vals_view(vs.drop_first());
    }
}


pub proof fn lemma_stmt_seq_view(ss: Seq<Statement>)
    ensures
        stmt_seq_view(ss).len() == ss.len(),
        forall|i: int| 0 <= i < ss.len() ==> stmt_seq_view(ss)[i] == stmt_view(ss[i]),
    decreases ss.len(),
{
    if ss.len() > 0 {
        lemma_stmt_seq_view(ss.drop_first());
    }
}


pub proof fn lemma_lits_view(vs: Seq<Literal>)
    ensures
        lits_view(vs).len() == vs.len(),
        forall|i: int| 0 <= i < vs.len() ==> lits_view(vs)[i] == lit_view(vs[i]),
    decreases vs.len(),
{
    if vs.len() > 0 {
        lemma_lits_view(vs.drop_first());
    }
}

pub proof fn lemma_lits_view_pointwise(a: Seq<Literal>, b: Seq<Literal>)
    requires
        a.len() == b.len(),
        forall|i: int| 0 <= i < a.len() ==> lit_view(a[i]) == lit_view(b[i]),
    ensures
        lits_view(a) == lits_view(b),
{
    lemma_lits_view(a);
    lemma_lits_view(b);
    assert(lits_view(a) =~= lits_view(b));
}

/// Where the last binding for a name sits, the map holds that binding's value.
pub proof fn lemma_entries_map_found(es: Seq<(String, Literal)>, j: int)
    requires
        0 <= j < es.len(),
        forall|i: int| j < i < es.len() ==> es[i].0@ != es[j].0@,
    ensures
        entries_map(es).contains_key(es[j].0@),
        entries_map(es)[es[j].0@] == lit_view(es[j].1),
    decreases es.len(),
{
    if j < es.len() - 1 {
        assert(es.drop_last()[j] == es[j]);
        lemma_entries_map_found(es.drop_last(), j);
    }
}

/// A name bound by no entry is absent from the map.
pub proof fn lemma_entries_map_absent(es: Seq<(String, Literal)>, k: Seq<char>)
    requires
        forall|i: int| 0 <= i < es.len() ==> es[i].0@ != k,
    ensures
        !entries_map(es).contains_key(k),
    decreases es.len(),
{
    if es.len() > 0 {
        lemma_entries_map_absent(es.drop_last(), k);
    }
}

/// Replacing the last binding for a name gives the same map as inserting the
/// new value for that name.
pub proof fn lemma_entries_map_update(es: Seq<(String, Literal)>, j: int, name: String, val: Literal)
    requires
        0 <= j < es.len(),
        es[j].0@ == name@,
        forall|i: int| j < i < es.len() ==> es[i].0@ != name@,
    ensures
        entries_map(es.update(j, (name, val))) == entries_map(es).insert(
            name@,
            lit_view(val),
        ),
    decreases es.len(),
{
    let es2 = es.update(j, (name, val));
    if j == es.len() - 1 {
        assert(es2.drop_last() =~= es.drop_last());
        assert(entries_map(es2) =~= entries_map(es).insert(name@, lit_view(val)));
    } else {
        assert(es2.drop_last() =~= es.drop_last().update(j, (name, val)));
        assert(es.drop_last()[j] == es[j]);
        lemma_entries_map_update(es.drop_last(), j, name, val);
        assert(es2.last() == es.last());
        assert(entries_map(es2) == entries_map(es.drop_last()).insert(name@, lit_view(val)).insert(
            es.last().0@,
            lit_view(es.last().1),
        ));
        assert(es.last().0@ != name@);
        assert(entries_map(es2) =~= entries_map(es).insert(name@, lit_view(val)));
    }
}

/// Pointwise view-equal entry lists give the same map.
pub proof fn lemma_entries_map_pointwise(a: Seq<(String, Literal)>, b: Seq<(String, Literal)>)
    requires
        a.len() == b.len(),
        forall|i: int|
            0 <= i < a.len() ==> a[i].0@ == b[i].0@ && lit_view(a[i].1) == lit_view(b[i].1),
    ensures
        entries_map(a) == entries_map(b),
    decreases a.len(),
{
    if a.len() > 0 {
        assert(forall|i: int|
            0 <= i < a.len() - 1 ==> a.drop_last()[i] == a[i] && b.drop_last()[i] == b[i]);
        lemma_entries_map_pointwise(a.drop_last(), b.drop_last());
        assert(a.last() == a[a.len() - 1] && b.last() == b[b.len() - 1]);
        assert(entries_map(a) =~= entries_map(b));
    }
}

// ---------------------------------------------------------------------------
// Scope operations.
// ---------------------------------------------------------------------------
impl Scope {
    pub fn new() -> (sc: Self)
        ensures
            scope_view(sc) == Map::<Seq<char>, LitV>::empty(),
            sc.entries@.len() == 0,
    {
        Scope { entries: Vec::new() }
    }

    /// The value bound to `name`, if any: the latest binding wins, though a
    /// scope never holds two bindings for one name.
    pub fn get(&self, name: &str) -> (r: Option<&Literal>)
        ensures
            (match r {
                Some(l) => scope_view(*self).contains_key(name@) && lit_view(*l) == scope_view(
                    *self,
                )[name@],
                None => !scope_view(*self).contains_key(name@),
            }),
    {
        let n = self.entries.len();
        let mut i: usize = n;
        while i > 0
            invariant
                i <= n,
                n == self.entries@.len(),
                forall|k: int| i <= k < n ==> self.entries@[k].0@ != name@,
            decreases i,
        {
            i = i - 1;
            if crate::strutil::str_eq(self.entries[i].0.as_str(), name) {
                proof {
                    lemma_entries_map_found(self.entries@, i as int);
                }
                return Some(&self.entries[i].1);
            }
        }
        proof {
            lemma_entries_map_absent(self.entries@, name@);
        }
        None
    }

    pub fn contains_key(&self, name: &str) -> (r: bool)
        ensures
            r == scope_view(*self).contains_key(name@),
    {
        match self.get(name) {
            Some(_) => true,
            None => false,
        }
    }

    /// Binds `name` to `val`, replacing any earlier binding for that name.
    pub fn insert(&mut self, name: String, val: Literal)
        ensures
            scope_view(*final(self)) == scope_view(*old(self)).insert(name@, lit_view(val)),
    {
        let n = self.entries.len();
        let mut i: usize = n;
        while i > 0
            invariant
                i <= n,
                n == self.entries@.len(),
                self.entries@ == old(self).entries@,
                forall|k: int| i <= k < n ==> self.entries@[k].0@ != name@,
            decreases i,
        {
            i = i - 1;
            if crate::strutil::str_eq(self.entries[i].0.as_str(), name.as_str()) {
                let ghost es0 = self.entries@;
                let ghost j = i as int;
                self.entries.remove(i);
                self.entries.insert(i, (name, val));
                proof {
                    assert(self.entries@ =~= es0.update(j, self.entries@[j]));
                    assert(self.entries@[j].0@ == es0[j].0@);
                    lemma_entries_map_update(es0, j, self.entries@[j].0, self.entries@[j].1);
                }
                return ;
            }
        }
        let ghost es0 = self.entries@;
        self.entries.push((name, val));
        proof {
            assert(self.entries@.drop_last() =~= es0);
        }
    }

    /// A full copy: the clone's bindings are the same map.
    pub fn clone(&self) -> (r: Self)
        ensures
            scope_view(r) == scope_view(*self),
            r.entries@.len() == self.entries@.len(),
    {
        let n = self.entries.len();
        let mut out: Vec<(String, Literal)> = Vec::new();
        let mut i: usize = 0;
        while i < n
            invariant
                i <= n,
                n == self.entries@.len(),
                out@.len() == i,
                forall|k: int|
                    0 <= k < i ==> out@[k].0@ == self.entries@[k].0@ && lit_view(out@[k].1)
                        == lit_view(self.entries@[k].1),
            decreases n - i,
        {
            let name = self.entries[i].0.clone();
            let val = self.entries[i].1.clone();
            out.push((name, val));
            i = i + 1;
        }
        proof {
            lemma_entries_map_pointwise(out@, self.entries@);
        }
        Scope { entries: out }
    }
}

// ---------------------------------------------------------------------------
// Accessors: reading a literal at a type.
// ---------------------------------------------------------------------------
impl Literal {
    pub fn as_nope(self) -> (r: Result<(), TypeError>)
        ensures
            (match r {
                Ok(_) => self matches Literal::Nope,
                Err(e) => !(self matches Literal::Nope) && e@.msg == "Literal is not a Nope"@
                    && e@.pos == temp_pos(),
            }),
    {
        match self {
            Literal::Nope => Ok(()),
            _ => Err(TypeError::new("Literal is not a Nope", &FilePos::temp())),
        }
    }

    pub fn as_str(self) -> (r: Result<String, TypeError>)
        ensures
            (match r {
                Ok(s) => self matches Literal::Str(s0) && s == s0,
                Err(e) => !(self matches Literal::Str(_)) && e@.msg == "Literal is not a string"@
                    && e@.pos == temp_pos(),
            }),
    {
        match self {
            Literal::Str(s) => Ok(s),
            _ => Err(TypeError::new("Literal is not a string", &FilePos::temp())),
        }
    }

    /// The number's bit pattern.
    pub fn as_num(self) -> (r: Result<u64, TypeError>)
        ensures
            (match r {
                Ok(b) => self matches Literal::Num(b0) && b == b0,
                Err(e) => !(self matches Literal::Num(_)) && e@.msg == "Literal is not a number"@
                    && e@.pos == temp_pos(),
            }),
    {
        match self {
            Literal::Num(b) => Ok(b),
            _ => Err(TypeError::new("Literal is not a number", &FilePos::temp())),
        }
    }

    /// The number as an integer, owed exactly when the literal is a number
    /// with fractional part zero.
    pub fn as_int(self) -> (r: Result<i64, TypeError>)
        ensures
            (match r {
                Ok(n) => self matches Literal::Num(b) && crate::numerics::num_is_whole(b) && n
                    == crate::numerics::int_of_num(b),
                Err(e) => e@.pos == temp_pos() && (match self {
                    Literal::Num(b) => !crate::numerics::num_is_whole(b) && e@.msg
                        == "Number is not an integer"@,
                    _ => e@.msg == "Literal is not a number"@,
                }),
            }),
    {
        match self {
            Literal::Num(b) => {
                if crate::numerics::whole_bits(b) {
                    Ok(crate::numerics::int_bits(b))
                } else {
                    Err(TypeError::new("Number is not an integer", &FilePos::temp()))
                }
            },
            _ => Err(TypeError::new("Literal is not a number", &FilePos::temp())),
        }
    }

    pub fn as_bool(self) -> (r: Result<bool, TypeError>)
        ensures
            (match r {
                Ok(b) => self matches Literal::Bool(b0) && b == b0,
                Err(e) => !(self matches Literal::Bool(_)) && e@.msg == "Literal is not a boolean"@
                    && e@.pos == temp_pos(),
            }),
    {
        match self {
            Literal::Bool(b) => Ok(b),
            _ => Err(TypeError::new("Literal is not a boolean", &FilePos::temp())),
        }
    }

    pub fn as_list(self) -> (r: Result<Vec<Literal>, TypeError>)
        ensures
            (match r {
                Ok(v) => self matches Literal::List(v0) && v == v0,
                Err(e) => !(self matches Literal::List(_)) && e@.msg == "Literal is not a boolean"@
                    && e@.pos == temp_pos(),
            }),
    {
        match self {
            Literal::List(v) => Ok(v),
            _ => Err(TypeError::new("Literal is not a boolean", &FilePos::temp())),
        }
    }

    pub fn as_fun(self) -> (r: Result<Callable, TypeError>)
        ensures
            (match r {
                Ok(c) => self matches Literal::Fun(c0) && c == c0,
                Err(e) => !(self matches Literal::Fun(_)) && e@.msg == "Literal is not a function"@
                    && e@.pos == temp_pos(),
            }),
    {
        match self {
            Literal::Fun(c) => Ok(c),
            _ => Err(TypeError::new("Literal is not a function", &FilePos::temp())),
        }
    }

    pub fn as_set(self) -> (r: Result<Scope, TypeError>)
        ensures
            (match r {
                Ok(sc) => self matches Literal::Record(sc0) && sc == sc0,
                Err(e) => !(self matches Literal::Record(_)) && e@.msg == "Literal is not a set"@
                    && e@.pos == temp_pos(),
            }),
    {
        match self {
            Literal::Record(sc) => Ok(sc),
            _ => Err(TypeError::new("Literal is not a set", &FilePos::temp())),
        }
    }
}

// ---------------------------------------------------------------------------
// Clones that provably keep the view.
// ---------------------------------------------------------------------------
impl Literal {
    #[verifier::loop_isolation(false)]
    pub fn clone(&self) -> (r: Self)
        ensures
            lit_view(r) == lit_view(*self),
        decreases self,
    {
        match self {
            Literal::Nope => Literal::Nope,
            Literal::Str(s) => Literal::Str(s.clone()),
            Literal::Char(c) => Literal::Char(*c),
            Literal::Num(b) => Literal::Num(*b),
            Literal::Bool(b) => Literal::Bool(*b),
            Literal::List(v) => {
                let n = v.len();
                let mut out: Vec<Literal> = Vec::new();
                let mut i: usize = 0;
                while i < n
                    invariant
                        i <= n,
                        n == v@.len(),
                        out@.len() == i,
                        forall|k: int| 0 <= k < i ==> lit_view(out@[k]) == lit_view(v@[k]),
                    decreases n - i,
                {
                    let x = v[i].clone();
                    out.push(x);
                    i = i + 1;
                }
                proof {
                    lemma_lits_view_pointwise(out@, v@);
                }
                Literal::List(out)
            },
            Literal::Fun(c) => Literal::Fun(c.clone()),
            Literal::Record(sc) => Literal::Record(sc.clone_values()),
        }
    }
}

impl Scope {
    /// The clone used from inside `Literal::clone`; it must re-clone every
    /// value, so it mirrors `clone` with an explicit termination measure.
    pub fn clone_values(&self) -> (r: Self)
        ensures
            scope_view(r) == scope_view(*self),
            r.entries@.len() == self.entries@.len(),
        decreases self,
    {
        let n = self.entries.len();
        let mut out: Vec<(String, Literal)> = Vec::new();
        let mut i: usize = 0;
        while i < n
            invariant
                i <= n,
                n == self.entries@.len(),
                out@.len() == i,
                forall|k: int|
                    0 <= k < i ==> out@[k].0@ == self.entries@[k].0@ && lit_view(out@[k].1)
                        == lit_view(self.entries@[k].1),
            decreases n - i,
        {
            let name = self.entries[i].0.clone();
            let val = self.entries[i].1.clone();
            out.push((name, val));
            i = i + 1;
        }
        proof {
            lemma_entries_map_pointwise(out@, self.entries@);
        }
        Scope { entries: out }
    }
}

/// The declared parameter list of a callable, user-defined or native.
pub open spec fn callable_arg_names(c: CallV) -> Seq<VarV> {
    match c {
        CallV::Fun(f) => f.args,
        CallV::Intr(i) => i.args,
    }
}

impl Callable {
    /// Both callable kinds expose the same arity contract: their ordered
    /// parameter names.
    pub fn get_args(&self) -> (r: Vec<Var>)
        ensures
            vars_view(r@) == callable_arg_names(call_view(*self)),
            r@.len() == callable_arg_names(call_view(*self)).len(),
    {
        let r = match self {
            Callable::Fun(f) => clone_vars(&f.args),
            Callable::Intr(i) => clone_vars(&i.args),
        };
        proof {
            lemma_vars_view(r@);
        }
        r
    }

    pub fn clone(&self) -> (r: Self)
        ensures
            call_view(r) == call_view(*self),
        decreases self,
    {
        match self {
            Callable::Fun(f) => Callable::Fun(f.clone()),
            Callable::Intr(i) => Callable::Intr(i.clone()),
        }
    }
}

impl Intrinsic {
    pub fn clone(&self) -> (r: Self)
        ensures
            vars_view(r.args@) == vars_view(self.args@),
            r.kind == self.kind,
        decreases self,
    {
        Intrinsic { args: clone_vars(&self.args), kind: self.kind }
    }
}

/// Clones a parameter list, keeping each name and position.
pub fn clone_vars(vs: &Vec<Var>) -> (r: Vec<Var>)
    ensures
        vars_view(r@) == vars_view(vs@),
        r@.len() == vs@.len(),
{
    let n = vs.len();
    let mut out: Vec<Var> = Vec::new();
    let mut i: usize = 0;
    while i < n
        invariant
            i <= n,
            n == vs@.len(),
            out@.len() == i,
            forall|k: int| 0 <= k < i ==> var_view(out@[k]) == var_view(vs@[k]),
        decreases n - i,
    {
        let x = vs[i].clone();
        out.push(x);
        i = i + 1;
    }
    proof {
        lemma_vars_view(out@);
        lemma_vars_view(vs@);
        assert(vars_view(out@) =~= vars_view(vs@));
    }
    out
}

impl Function {
    pub fn clone(&self) -> (r: Self)
        ensures
            fun_view(r) == fun_view(*self),
        decreases self,
    {
        let r = Function {
            args: clone_vars(&self.args),
            body: self.body.clone(),
            pos: self.pos.clone(),
        };
        proof {
            assert(fun_view(r) =~= fun_view(*self));
        }
        r
    }
}

impl Statements {
    pub fn clone(&self) -> (r: Self)
        ensures
            stmts_view(r) == stmts_view(*self),
        decreases self,
    {
        let n = self.0.len();
        let mut out: Vec<Statement> = Vec::new();
        let mut i: usize = 0;
        while i < n
            invariant
                i <= n,
                n == self.0@.len(),
                out@.len() == i,
                forall|k: int| 0 <= k < i ==> stmt_view(out@[k]) == stmt_view(self.0@[k]),
            decreases n - i,
        {
            let x = self.0[i].clone();
            out.push(x);
            i = i + 1;
        }
        proof {
            lemma_stmt_seq_view(out@);
            lemma_stmt_seq_view(self.0@);
            assert(stmt_seq_view(out@) =~= stmt_seq_view(self.0@));
        }
        Statements(out)
    }
}

impl Statement {
    pub fn clone(&self) -> (r: Self)
        ensures
            stmt_view(r) == stmt_view(*self),
        decreases self,
    {
        match self {
            Statement::Assignment { var, val, pos } => Statement::Assignment {
                var: var.clone(),
                val: val.clone(),
                pos: pos.clone(),
            },
            Statement::Value(v) => Statement::Value(v.clone()),
            Statement::Include(p) => Statement::Include(p.clone()),
        }
    }
}

impl Reference {
    pub fn clone(&self) -> (r: Self)
        ensures
            ref_view(r) == ref_view(*self),
        decreases self,
    {
        match self {
            Reference::Var(v) => Reference::Var(v.clone()),
            Reference::Member { set, field, pos } => Reference::Member {
                set: Box::new((**set).clone()),
                field: field.clone(),
                pos: pos.clone(),
            },
        }
    }
}

impl Value {
    #[verifier::loop_isolation(false)]
    pub fn clone(&self) -> (r: Self)
        ensures
            val_view(r) == val_view(*self),
        decreases self,
    {
        match self {
            Value::Lit(l) => Value::Lit(l.clone()),
            Value::Ref(rf) => Value::Ref(rf.clone()),
            Value::FunCall { fun, params, pos } => {
                let n = params.len();
                let mut out: Vec<Value> = Vec::new();
                let mut i: usize = 0;
                while i < n
                    invariant
                        i <= n,
                        n == params@.len(),
                        out@.len() == i,
                        forall|k: int| 0 <= k < i ==> val_view(out@[k]) == val_view(params@[k]),
                    decreases n - i,
                {
                    let x = params[i].clone();
                    out.push(x);
                    i = i + 1;
                }
                proof {
                    lemma_vals_view(out@);
                    lemma_vals_view(params@);
                    assert(vals_view(out@) =~= vals_view(params@));
                }
                Value::FunCall {
                    fun: Box::new((**fun).clone()),
                    params: out,
                    pos: pos.clone(),
                }
            },
        }
    }
}

} // verus!

