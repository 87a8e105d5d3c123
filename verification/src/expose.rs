//! Building expression graphs: registered expressions, traces of values, and
//! the primitives that shader code is made of.

pub mod compile;
pub mod sampler;
pub mod scalar;

use vstd::prelude::*;

use crate::dag::{type_refs_below, BinaryOp, BuiltInType, Expr, ExprGraph, FuncDef, Type};

verus! {

/// The number of an expression in the graph that holds it.
#[derive(Debug, Copy, Clone, PartialEq, Eq, PartialOrd, Ord, Hash, Structural)]
pub struct ExprId(pub usize);

/// Adds `expr` to the graph; its number.
pub fn put(graph: &mut ExprGraph, expr: Expr) -> (id: ExprId)
    requires
        old(graph).wf(),
        old(graph).nodes().len() < usize::MAX,
        expr.deps_below(old(graph).nodes().len() as int),
        expr.types_below(old(graph).structs().len() as int),
    ensures
        final(graph).wf(),
        id.0 == old(graph).nodes().len(),
        final(graph).nodes() == old(graph).nodes().push(expr),
        final(graph).structs() == old(graph).structs(),
{
    ExprId(graph.add(expr))
}

/// The expression with number `id`.
pub fn get(graph: &ExprGraph, id: ExprId) -> (r: &Expr)
    requires
        id.0 < graph.nodes().len(),
    ensures
        *r == graph.nodes()[id.0 as int],
{
    graph.node(id.0)
}

/// A value of shader code: the expression that computes it.
#[derive(Debug, Copy, Clone, PartialEq, Eq, Structural)]
pub struct Trace {
    pub expr_id: ExprId,
}

impl Trace {
    /// The value of a new expression `expr`.
    pub fn new(graph: &mut ExprGraph, expr: Expr) -> (r: Self)
        requires
            old(graph).wf(),
            old(graph).nodes().len() < usize::MAX,
            expr.deps_below(old(graph).nodes().len() as int),
            expr.types_below(old(graph).structs().len() as int),
        ensures
            final(graph).wf(),
            r.expr_id.0 == old(graph).nodes().len(),
            final(graph).nodes() == old(graph).nodes().push(expr),
            final(graph).structs() == old(graph).structs(),
    {
        Trace { expr_id: put(graph, expr) }
    }

    /// The value of the variable or argument named `ident`, of type `ty`.
    pub fn from_ident(graph: &mut ExprGraph, ident: &str, ty: Type) -> (r: Self)
        requires
            old(graph).wf(),
            old(graph).nodes().len() < usize::MAX,
            type_refs_below(ty, old(graph).structs().len() as int),
        ensures
            final(graph).wf(),
            r.expr_id.0 == old(graph).nodes().len(),
            final(graph).nodes().len() == old(graph).nodes().len() + 1,
            final(graph).nodes().drop_last() == old(graph).nodes(),
            final(graph).nodes().last() matches Expr::Arg { name, ty: t } && name@ == ident@ && t == ty,
            final(graph).structs() == old(graph).structs(),
    {
        let e = Expr::Arg { name: ident.to_string(), ty };
        proof {
            assert(e.deps() == Seq::<usize>::empty());
        }
        let r = Trace::new(graph, e);
        assert(graph.nodes().drop_last() == old(graph).nodes());
        r
    }

    /// The expression of the value.
    pub fn expr<'a>(&self, graph: &'a ExprGraph) -> (r: &'a Expr)
        requires
            self.expr_id.0 < graph.nodes().len(),
        ensures
            *r == graph.nodes()[self.expr_id.0 as int],
    {
        get(graph, self.expr_id)
    }
}

/// The member `member`, of type `ty`, of the value `base`.
pub fn field(graph: &mut ExprGraph, base: Trace, member: &str, ty: Type) -> (r: Trace)
    requires
        old(graph).wf(),
        old(graph).nodes().len() < usize::MAX,
        base.expr_id.0 < old(graph).nodes().len(),
        type_refs_below(ty, old(graph).structs().len() as int),
    ensures
        final(graph).wf(),
        r.expr_id.0 == old(graph).nodes().len(),
        final(graph).nodes().drop_last() == old(graph).nodes(),
        final(graph).nodes().len() == old(graph).nodes().len() + 1,
        final(graph).nodes().last() matches Expr::Field { base: b, name, ty: t } && b == base.expr_id.0 && name@
            == member@ && t == ty,
        final(graph).structs() == old(graph).structs(),
{
    let e = Expr::Field { base: base.expr_id.0, name: member.to_string(), ty };
    let r = Trace::new(graph, e);
    assert(graph.nodes().drop_last() == old(graph).nodes());
    r
}

/// A binary operation `op` of type `ty` on the values `left` and `right`.
pub fn binary(graph: &mut ExprGraph, left: Trace, op: BinaryOp, right: Trace, ty: Type) -> (r: Trace)
    requires
        old(graph).wf(),
        old(graph).nodes().len() < usize::MAX,
        left.expr_id.0 < old(graph).nodes().len(),
        right.expr_id.0 < old(graph).nodes().len(),
        type_refs_below(ty, old(graph).structs().len() as int),
    ensures
        final(graph).wf(),
        r.expr_id.0 == old(graph).nodes().len(),
        final(graph).nodes() == old(graph).nodes().push(
            Expr::Binary { left: left.expr_id.0, op, right: right.expr_id.0, ty },
        ),
        final(graph).structs() == old(graph).structs(),
{
    Trace::new(graph, Expr::Binary { left: left.expr_id.0, op, right: right.expr_id.0, ty })
}

/// A call of the user-defined function `def` with the values `args`, one
/// for each of its parameters.
pub fn func_def_and_call(graph: &mut ExprGraph, def: FuncDef, args: Vec<usize>) -> (r: Trace)
    requires
        old(graph).wf(),
        old(graph).nodes().len() < usize::MAX,
        def.params.len() == args.len(),
        def.result < old(graph).nodes().len(),
        forall|i: int| 0 <= i < args.len() ==> #[trigger] args@[i] < old(graph).nodes().len(),
    ensures
        final(graph).wf(),
        r.expr_id.0 == old(graph).nodes().len(),
        final(graph).nodes() == old(graph).nodes().push(Expr::CallFuncDef { def, args }),
        final(graph).structs() == old(graph).structs(),
{
    let e = Expr::CallFuncDef { def, args };
    proof {
        let d = e.deps();
        assert forall|k: int| 0 <= k < d.len() implies #[trigger] d[k] < graph.nodes().len() by {
            if k < args.len() {
                assert(d[k] == args@[k]);
            }
        }
    }
    Trace::new(graph, e)
}

/// Adds a call of the built-in function `name`, of result type `ty`, with
/// the values `args`.
fn built_in(graph: &mut ExprGraph, name: &str, args: Vec<usize>, ty: Type) -> (r: Trace)
    requires
        old(graph).wf(),
        old(graph).nodes().len() < usize::MAX,
        forall|i: int| 0 <= i < args.len() ==> #[trigger] args@[i] < old(graph).nodes().len(),
        type_refs_below(ty, old(graph).structs().len() as int),
    ensures
        final(graph).wf(),
        r.expr_id.0 == old(graph).nodes().len(),
        final(graph).nodes().len() == old(graph).nodes().len() + 1,
        final(graph).nodes().drop_last() == old(graph).nodes(),
        final(graph).nodes().last() matches Expr::CallBuiltIn { name: n, args: a, ty: t } && n@ == name@ && a@
            == args@ && t == ty,
        final(graph).structs() == old(graph).structs(),
{
    let ghost a = args@;
    let e = Expr::CallBuiltIn { name: name.to_string(), args, ty };
    let r = Trace::new(graph, e);
    assert(graph.nodes().drop_last() == old(graph).nodes());
    r
}

/// A call of the built-in function `name`, of result type `ty`, with one
/// argument.
pub fn built_in1(graph: &mut ExprGraph, name: &str, u: Trace, ty: Type) -> (r: Trace)
    requires
        old(graph).wf(),
        old(graph).nodes().len() < usize::MAX,
        u.expr_id.0 < old(graph).nodes().len(),
        type_refs_below(ty, old(graph).structs().len() as int),
    ensures
        final(graph).wf(),
        r.expr_id.0 == old(graph).nodes().len(),
        final(graph).nodes().len() == old(graph).nodes().len() + 1,
        final(graph).nodes().drop_last() == old(graph).nodes(),
        final(graph).nodes().last() matches Expr::CallBuiltIn { name: n, args, ty: t } && n@ == name@ && args@
            == seq![u.expr_id.0] && t == ty,
        final(graph).structs() == old(graph).structs(),
{
    let args = vec![u.expr_id.0];
    built_in(graph, name, args, ty)
}

/// A call of the built-in function `name`, of result type `ty`, with two
/// arguments.
pub fn built_in2(graph: &mut ExprGraph, name: &str, u: Trace, v: Trace, ty: Type) -> (r: Trace)
    requires
        old(graph).wf(),
        old(graph).nodes().len() < usize::MAX,
        u.expr_id.0 < old(graph).nodes().len(),
        v.expr_id.0 < old(graph).nodes().len(),
        type_refs_below(ty, old(graph).structs().len() as int),
    ensures
        final(graph).wf(),
        r.expr_id.0 == old(graph).nodes().len(),
        final(graph).nodes().len() == old(graph).nodes().len() + 1,
        final(graph).nodes().drop_last() == old(graph).nodes(),
        final(graph).nodes().last() matches Expr::CallBuiltIn { name: n, args, ty: t } && n@ == name@ && args@
            == seq![u.expr_id.0, v.expr_id.0] && t == ty,
        final(graph).structs() == old(graph).structs(),
{
    let args = vec![u.expr_id.0, v.expr_id.0];
    built_in(graph, name, args, ty)
}

/// A call of the built-in function `name`, of result type `ty`, with three
/// arguments.
pub fn built_in3(graph: &mut ExprGraph, name: &str, u: Trace, v: Trace, w: Trace, ty: Type) -> (r: Trace)
    requires
        old(graph).wf(),
        old(graph).nodes().len() < usize::MAX,
        u.expr_id.0 < old(graph).nodes().len(),
        v.expr_id.0 < old(graph).nodes().len(),
        w.expr_id.0 < old(graph).nodes().len(),
        type_refs_below(ty, old(graph).structs().len() as int),
    ensures
        final(graph).wf(),
        r.expr_id.0 == old(graph).nodes().len(),
        final(graph).nodes().len() == old(graph).nodes().len() + 1,
        final(graph).nodes().drop_last() == old(graph).nodes(),
        final(graph).nodes().last() matches Expr::CallBuiltIn { name: n, args, ty: t } && n@ == name@ && args@
            == seq![u.expr_id.0, v.expr_id.0, w.expr_id.0] && t == ty,
        final(graph).structs() == old(graph).structs(),
{
    let args = vec![u.expr_id.0, v.expr_id.0, w.expr_id.0];
    built_in(graph, name, args, ty)
}

/// A call of the built-in function `name`, of result type `ty`, with four
/// arguments.
pub fn built_in4(graph: &mut ExprGraph, name: &str, u: Trace, v: Trace, w: Trace, x: Trace, ty: Type) -> (r: Trace)
    requires
        old(graph).wf(),
        old(graph).nodes().len() < usize::MAX,
        u.expr_id.0 < old(graph).nodes().len(),
        v.expr_id.0 < old(graph).nodes().len(),
        w.expr_id.0 < old(graph).nodes().len(),
        x.expr_id.0 < old(graph).nodes().len(),
        type_refs_below(ty, old(graph).structs().len() as int),
    ensures
        final(graph).wf(),
        r.expr_id.0 == old(graph).nodes().len(),
        final(graph).nodes().len() == old(graph).nodes().len() + 1,
        final(graph).nodes().drop_last() == old(graph).nodes(),
        final(graph).nodes().last() matches Expr::CallBuiltIn { name: n, args, ty: t } && n@ == name@ && args@
            == seq![u.expr_id.0, v.expr_id.0, w.expr_id.0, x.expr_id.0] && t == ty,
        final(graph).structs() == old(graph).structs(),
{
    let args = vec![u.expr_id.0, v.expr_id.0, w.expr_id.0, x.expr_id.0];
    built_in(graph, name, args, ty)
}

/// The names of the fields of struct `s`.
pub open spec fn field_names(graph: &ExprGraph, s: usize) -> Set<Seq<char>> {
    Set::new(|n: Seq<char>| exists|f: int| 0 <= f < graph.structs()[s as int].fields@.len() && #[trigger] graph.structs()[s as int].fields@[f].0@ == n)
}

/// The member names of the field accesses `exprs`.
pub open spec fn member_names(graph: &ExprGraph, exprs: Seq<usize>) -> Set<Seq<char>> {
    Set::new(|n: Seq<char>| exists|i: int| 0 <= i < exprs.len() && #[trigger] graph.nodes()[exprs[i] as int]->Field_name@ == n)
}

/// The value whose fields the expressions `exprs` are, if they are exactly
/// all fields of one struct value: each is a field access on the same
/// value, that value is a struct, and every field of the struct, and no
/// other name, is accessed.
pub open spec fn common_base(graph: &ExprGraph, exprs: Seq<usize>) -> Option<usize> {
    if exprs.len() == 0 || !(graph.nodes()[exprs[0] as int] is Field) {
        None
    } else {
        let b = graph.nodes()[exprs[0] as int]->Field_base;
        if (forall|i: int|
            0 <= i < exprs.len() ==> (#[trigger] graph.nodes()[exprs[i] as int] is Field) && graph.nodes()[exprs[i] as int]->Field_base
                == b) && (graph.ty_at(b as int) matches Type::Struct(s) && s < graph.structs().len() && member_names(
            graph,
            exprs,
        ) == field_names(graph, s)) {
            Some(b)
        } else {
            None
        }
    }
}

/// The value whose fields the expressions `exprs` are, if they are exactly
/// all fields of one struct value.
pub fn common_field_base(graph: &ExprGraph, exprs: &Vec<usize>) -> (r: Option<usize>)
    requires
        graph.wf(),
        forall|i: int| 0 <= i < exprs.len() ==> #[trigger] exprs@[i] < graph.nodes().len(),
    ensures
        r == common_base(graph, exprs@),
{
    if exprs.len() == 0 {
        return None;
    }
    let base = match graph.node(exprs[0]) {
        Expr::Field { base, .. } => *base,
        _ => {
            return None;
        },
    };
    let mut i: usize = 0;
    while i < exprs.len()
        invariant
            0 < exprs.len(),
            i <= exprs.len(),
            graph.nodes()[exprs@[0] as int] is Field,
            base == graph.nodes()[exprs@[0] as int]->Field_base,
            forall|k: int| 0 <= k < exprs.len() ==> #[trigger] exprs@[k] < graph.nodes().len(),
            forall|k: int|
                0 <= k < i ==> (#[trigger] graph.nodes()[exprs@[k] as int] is Field) && graph.nodes()[exprs@[k] as int]->Field_base
                    == base,
        decreases exprs.len() - i,
    {
        match graph.node(exprs[i]) {
            Expr::Field { base: b, .. } => {
                if *b != base {
                    proof {
                        assert(graph.nodes()[exprs@[i as int] as int]->Field_base != base);
                        assert(common_base(graph, exprs@) is None);
                    }
                    return None;
                }
            },
            _ => {
                proof {
                    assert(!(graph.nodes()[exprs@[i as int] as int] is Field));
                    assert(common_base(graph, exprs@) is None);
                }
                return None;
            },
        }
        i = i + 1;
    }
    assert(base < graph.nodes().len()) by {
        assert(graph.nodes()[exprs@[0] as int].deps_below(exprs@[0] as int));
        assert(graph.nodes()[exprs@[0] as int].deps()[0] == base);
    }
    let s = match graph.ty_of(base) {
        Type::Struct(s) => s,
        _ => {
            return None;
        },
    };
    if s >= graph.num_structs() {
        return None;
    }
    let fields = &graph.struct_type(s).fields;
    // Every member is a field.
    let mut i: usize = 0;
    while i < exprs.len()
        invariant
            i <= exprs.len(),
            0 < exprs.len(),
            graph.nodes()[exprs@[0] as int] is Field,
            base == graph.nodes()[exprs@[0] as int]->Field_base,
            graph.ty_at(base as int) == Type::Struct(s),
            forall|k: int|
                0 <= k < exprs.len() ==> (#[trigger] graph.nodes()[exprs@[k] as int] is Field) && graph.nodes()[exprs@[k] as int]->Field_base
                    == base,
            s < graph.structs().len(),
            *fields == graph.structs()[s as int].fields,
            forall|k: int| 0 <= k < exprs.len() ==> #[trigger] exprs@[k] < graph.nodes().len(),
            forall|k: int| 0 <= k < exprs.len() ==> (#[trigger] graph.nodes()[exprs@[k] as int] is Field),
            forall|k: int| 0 <= k < i ==> field_names(graph, s).contains(#[trigger] graph.nodes()[exprs@[k] as int]->Field_name@),
        decreases exprs.len() - i,
    {
        let name = match graph.node(exprs[i]) {
            Expr::Field { name, .. } => name,
            _ => {
                return None;
            },
        };
        let mut found = false;
        let mut f: usize = 0;
        while f < fields.len()
            invariant
                f <= fields.len(),
                found ==> exists|g: int| 0 <= g < f && fields@[g].0@ == name@,
                !found ==> forall|g: int| 0 <= g < f ==> fields@[g].0@ != name@,
            decreases fields.len() - f,
        {
            if fields[f].0.eq(name) {
                found = true;
            }
            f = f + 1;
        }
        if !found {
            proof {
                assert(!field_names(graph, s).contains(name@));
                assert(!(member_names(graph, exprs@) == field_names(graph, s))) by {
                    assert(member_names(graph, exprs@).contains(name@));
                }
            }
            return None;
        }
        proof {
            let g = choose|g: int| 0 <= g < f && fields@[g].0@ == name@;
            assert(graph.structs()[s as int].fields@[g].0@ == name@);
        }
        i = i + 1;
    }
    // Every field is a member.
    let mut f: usize = 0;
    while f < fields.len()
        invariant
            f <= fields.len(),
            0 < exprs.len(),
            graph.nodes()[exprs@[0] as int] is Field,
            base == graph.nodes()[exprs@[0] as int]->Field_base,
            graph.ty_at(base as int) == Type::Struct(s),
            forall|k: int|
                0 <= k < exprs.len() ==> (#[trigger] graph.nodes()[exprs@[k] as int] is Field) && graph.nodes()[exprs@[k] as int]->Field_base
                    == base,
            s < graph.structs().len(),
            *fields == graph.structs()[s as int].fields,
            forall|k: int| 0 <= k < exprs.len() ==> #[trigger] exprs@[k] < graph.nodes().len(),
            forall|k: int| 0 <= k < exprs.len() ==> (#[trigger] graph.nodes()[exprs@[k] as int] is Field),
            forall|g: int| 0 <= g < f ==> member_names(graph, exprs@).contains(#[trigger] fields@[g].0@),
        decreases fields.len() - f,
    {
        let mut found = false;
        let mut i: usize = 0;
        while i < exprs.len()
            invariant
                i <= exprs.len(),
                f < fields.len(),
                forall|k: int| 0 <= k < exprs.len() ==> #[trigger] exprs@[k] < graph.nodes().len(),
                forall|k: int| 0 <= k < exprs.len() ==> (#[trigger] graph.nodes()[exprs@[k] as int] is Field),
                found ==> exists|k: int| 0 <= k < i && graph.nodes()[exprs@[k] as int]->Field_name@ == fields@[f as int].0@,
                !found ==> forall|k: int| 0 <= k < i ==> graph.nodes()[exprs@[k] as int]->Field_name@ != fields@[f as int].0@,
            decreases exprs.len() - i,
        {
            match graph.node(exprs[i]) {
                Expr::Field { name, .. } => {
                    if name.eq(&fields[f].0) {
                        found = true;
                    }
                },
                _ => {},
            }
            i = i + 1;
        }
        if !found {
            proof {
                assert(field_names(graph, s).contains(fields@[f as int].0@));
                assert(!member_names(graph, exprs@).contains(fields@[f as int].0@));
            }
            return None;
        }
        f = f + 1;
    }
    proof {
        assert(member_names(graph, exprs@) =~= field_names(graph, s));
    }
    Some(base)
}

} // verus!
