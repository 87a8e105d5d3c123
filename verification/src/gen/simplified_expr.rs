use vstd::prelude::*;

use crate::dag::{BinaryOp, BuiltInType, Type};

use super::names::{decimal_text, push_decimal, var_name_text};

verus! {

/// The number of a variable of the generated code.
#[derive(Debug, Clone, Copy, PartialEq, Eq, PartialOrd, Ord, Hash, Structural)]
pub struct VarId(pub usize);

impl VarId {
    pub fn index(self) -> (r: usize)
        ensures
            r == self.0,
    {
        self.0
    }
}

/// An expression tree as it is written out: operands are either inlined or
/// refer to a variable.
#[derive(Debug)]
pub enum SimplifiedExpr {
    Branch { cond: Box<SimplifiedExpr>, yes: Box<SimplifiedExpr>, no: Box<SimplifiedExpr>, ty: Type },
    Arg { name: String, ty: Type },
    ScalarLiteral { value: String, ty: BuiltInType },
    Binary { left: Box<SimplifiedExpr>, op: BinaryOp, right: Box<SimplifiedExpr>, ty: Type },
    CallFunc { name: String, args: Vec<SimplifiedExpr>, ty: Type },
    Field { base: Box<SimplifiedExpr>, name: String, ty: Type },
    Var { id: VarId, ty: Type },
}

/// What a simplified expression denotes: the same tree, with text as
/// sequences of characters and operand lists as sequences.
pub enum ExprView {
    Branch { cond: Box<ExprView>, yes: Box<ExprView>, no: Box<ExprView>, ty: Type },
    Arg { name: Seq<char>, ty: Type },
    ScalarLiteral { value: Seq<char>, ty: BuiltInType },
    Binary { left: Box<ExprView>, op: BinaryOp, right: Box<ExprView>, ty: Type },
    CallFunc { name: Seq<char>, args: Seq<ExprView>, ty: Type },
    Field { base: Box<ExprView>, name: Seq<char>, ty: Type },
    Var { id: VarId, ty: Type },
}

impl ExprView {
    pub open spec fn ty(self) -> Type {
        match self {
            ExprView::Arg { ty, .. } => ty,
            ExprView::ScalarLiteral { ty, .. } => Type::BuiltIn(ty),
            ExprView::Binary { ty, .. } => ty,
            ExprView::CallFunc { ty, .. } => ty,
            ExprView::Field { ty, .. } => ty,
            ExprView::Branch { ty, .. } => ty,
            ExprView::Var { ty, .. } => ty,
        }
    }
}

/// The view of a simplified expression.
pub open spec fn expr_view(e: SimplifiedExpr) -> ExprView
    decreases e,
{
    match e {
        SimplifiedExpr::Branch { cond, yes, no, ty } => ExprView::Branch {
            cond: Box::new(expr_view(*cond)),
            yes: Box::new(expr_view(*yes)),
            no: Box::new(expr_view(*no)),
            ty,
        },
        SimplifiedExpr::Arg { name, ty } => ExprView::Arg { name: name@, ty },
        SimplifiedExpr::ScalarLiteral { value, ty } => ExprView::ScalarLiteral { value: value@, ty },
        SimplifiedExpr::Binary { left, op, right, ty } => ExprView::Binary {
            left: Box::new(expr_view(*left)),
            op,
            right: Box::new(expr_view(*right)),
            ty,
        },
        SimplifiedExpr::CallFunc { name, args, ty } => ExprView::CallFunc {
            name: name@,
            args: list_view(args@),
            ty,
        },
        SimplifiedExpr::Field { base, name, ty } => ExprView::Field {
            base: Box::new(expr_view(*base)),
            name: name@,
            ty,
        },
        SimplifiedExpr::Var { id, ty } => ExprView::Var { id, ty },
    }
}

/// The views of a list of simplified expressions.
pub open spec fn list_view(s: Seq<SimplifiedExpr>) -> Seq<ExprView>
    decreases s,
{
    if s.len() == 0 {
        seq![]
    } else {
        list_view(s.drop_last()).push(expr_view(s.last()))
    }
}

/// The view of a list has the same length, element by element.
pub proof fn lemma_list_view(s: Seq<SimplifiedExpr>)
    ensures
        list_view(s).len() == s.len(),
        forall|i: int| 0 <= i < s.len() ==> #[trigger] list_view(s)[i] == expr_view(s[i]),
    decreases s.len(),
{
    if s.len() > 0 {
        lemma_list_view(s.drop_last());
        assert forall|i: int| 0 <= i < s.len() implies #[trigger] list_view(s)[i] == expr_view(s[i]) by {
            if i < s.len() - 1 {
                assert(s.drop_last()[i] == s[i]);
            }
        }
    }
}

impl View for SimplifiedExpr {
    type V = ExprView;

    open spec fn view(&self) -> ExprView {
        expr_view(*self)
    }
}

impl SimplifiedExpr {
    pub open spec fn spec_ty(self) -> Type {
        match self {
            SimplifiedExpr::Arg { ty, .. } => ty,
            SimplifiedExpr::ScalarLiteral { ty, .. } => Type::BuiltIn(ty),
            SimplifiedExpr::Binary { ty, .. } => ty,
            SimplifiedExpr::CallFunc { ty, .. } => ty,
            SimplifiedExpr::Field { ty, .. } => ty,
            SimplifiedExpr::Branch { ty, .. } => ty,
            SimplifiedExpr::Var { ty, .. } => ty,
        }
    }

    /// The type of the expression.
    pub fn ty(&self) -> (r: Type)
        ensures
            r == self.spec_ty(),
    {
        match self {
            SimplifiedExpr::Arg { ty, .. } => ty.clone(),
            SimplifiedExpr::ScalarLiteral { ty, .. } => Type::BuiltIn(*ty),
            SimplifiedExpr::Binary { ty, .. } => ty.clone(),
            SimplifiedExpr::CallFunc { ty, .. } => ty.clone(),
            SimplifiedExpr::Field { ty, .. } => ty.clone(),
            SimplifiedExpr::Branch { ty, .. } => ty.clone(),
            SimplifiedExpr::Var { ty, .. } => ty.clone(),
        }
    }
}

fn clone_list(args: &Vec<SimplifiedExpr>) -> (r: Vec<SimplifiedExpr>)
    ensures
        list_view(r@) == list_view(args@),
    decreases args@,
{
    let mut r: Vec<SimplifiedExpr> = Vec::new();
    let mut i: usize = 0;
    while i < args.len()
        invariant
            i <= args.len(),
            r.len() == i,
            list_view(r@) == list_view(args@.take(i as int)),
        decreases args.len() - i,
    {
        assert(decreases_to!(args@ => args@[i as int]));
        let c = args[i].clone();
        let ghost r0 = r@;
        r.push(c);
        assert(r@.drop_last() == r0);
        assert(args@.take(i + 1).drop_last() == args@.take(i as int));
        assert(args@.take(i + 1).last() == args@[i as int]);
        i = i + 1;
    }
    assert(args@.take(args.len() as int) == args@);
    r
}

impl Clone for SimplifiedExpr {
    fn clone(&self) -> (r: Self)
        ensures
            r@ == self@,
        decreases self,
    {
        match self {
            SimplifiedExpr::Branch { cond, yes, no, ty } => {
                let c = (**cond).clone();
                let y = (**yes).clone();
                let n = (**no).clone();
                let t = ty.clone();
                SimplifiedExpr::Branch { cond: Box::new(c), yes: Box::new(y), no: Box::new(n), ty: t }
            },
            SimplifiedExpr::Arg { name, ty } => SimplifiedExpr::Arg { name: name.clone(), ty: ty.clone() },
            SimplifiedExpr::ScalarLiteral { value, ty } => SimplifiedExpr::ScalarLiteral {
                value: value.clone(),
                ty: *ty,
            },
            SimplifiedExpr::Binary { left, op, right, ty } => SimplifiedExpr::Binary {
                left: Box::new((**left).clone()),
                op: *op,
                right: Box::new((**right).clone()),
                ty: ty.clone(),
            },
            SimplifiedExpr::CallFunc { name, args, ty } => {
                assert(decreases_to!(self => args@));
                SimplifiedExpr::CallFunc { name: name.clone(), args: clone_list(args), ty: ty.clone() }
            },
            SimplifiedExpr::Field { base, name, ty } => SimplifiedExpr::Field {
                base: Box::new((**base).clone()),
                name: name.clone(),
                ty: ty.clone(),
            },
            SimplifiedExpr::Var { id, ty } => SimplifiedExpr::Var { id: *id, ty: ty.clone() },
        }
    }
}

} // verus!

verus! {

/// The GLSL operator of a binary operation.
pub open spec fn op_text(op: BinaryOp) -> Seq<char> {
    match op {
        BinaryOp::Add => "+"@,
        BinaryOp::Sub => "-"@,
        BinaryOp::Mul => "*"@,
        BinaryOp::Div => "/"@,
        BinaryOp::Eq => "=="@,
        BinaryOp::And => "&&"@,
        BinaryOp::Or => "||"@,
    }
}

/// The GLSL operator of a binary operation.
pub fn op_str(op: BinaryOp) -> (r: &'static str)
    ensures
        r@ == op_text(op),
{
    match op {
        BinaryOp::Add => "+",
        BinaryOp::Sub => "-",
        BinaryOp::Mul => "*",
        BinaryOp::Div => "/",
        BinaryOp::Eq => "==",
        BinaryOp::And => "&&",
        BinaryOp::Or => "||",
    }
}

/// How an expression is written in GLSL. Every binary operation and every
/// conditional is parenthesized, so that no precedence rule is involved.
pub open spec fn expr_text(e: ExprView) -> Seq<char>
    decreases e,
{
    match e {
        ExprView::Arg { name, .. } => name,
        ExprView::ScalarLiteral { value, .. } => value,
        ExprView::Binary { left, op, right, .. } => "("@ + expr_text(*left) + " "@ + op_text(op) + " "@
            + expr_text(*right) + ")"@,
        ExprView::CallFunc { name, args, .. } => name + "("@ + args_text(args) + ")"@,
        ExprView::Field { base, name, .. } => expr_text(*base) + "."@ + name,
        ExprView::Branch { cond, yes, no, .. } => "("@ + expr_text(*cond) + " ? "@ + expr_text(*yes)
            + " : "@ + expr_text(*no) + ")"@,
        ExprView::Var { id, .. } => var_name_text(id.0 as nat),
    }
}

/// A binary operation is written as its two operands, in order, with the
/// GLSL operator between them, spaced and in parentheses: `+` for addition,
/// `-` for subtraction, `*` for multiplication, `/` for division, `==` for
/// equality, `&&` for conjunction and `||` for disjunction.
pub proof fn lemma_binary_text(left: ExprView, op: BinaryOp, right: ExprView, ty: Type)
    ensures
        ({
            let text = expr_text(ExprView::Binary { left: Box::new(left), op, right: Box::new(right), ty });
            let (l, r) = (expr_text(left), expr_text(right));
            &&& op is Add ==> text == "("@ + l + " + "@ + r + ")"@
            &&& op is Sub ==> text == "("@ + l + " - "@ + r + ")"@
            &&& op is Mul ==> text == "("@ + l + " * "@ + r + ")"@
            &&& op is Div ==> text == "("@ + l + " / "@ + r + ")"@
            &&& op is Eq ==> text == "("@ + l + " == "@ + r + ")"@
            &&& op is And ==> text == "("@ + l + " && "@ + r + ")"@
            &&& op is Or ==> text == "("@ + l + " || "@ + r + ")"@
        }),
{
    reveal_strlit("(");
    reveal_strlit(")");
    reveal_strlit(" ");
    reveal_strlit("+");
    reveal_strlit("-");
    reveal_strlit("*");
    reveal_strlit("/");
    reveal_strlit("==");
    reveal_strlit("&&");
    reveal_strlit("||");
    reveal_strlit(" + ");
    reveal_strlit(" - ");
    reveal_strlit(" * ");
    reveal_strlit(" / ");
    reveal_strlit(" == ");
    reveal_strlit(" && ");
    reveal_strlit(" || ");
    let (l, r) = (expr_text(left), expr_text(right));
    let o = op_text(op);
    assert("("@ + l + " "@ + o + " "@ + r + ")"@ =~= "("@ + l + (" "@ + o + " "@) + r + ")"@);
    assert(" "@ + o + " "@ =~= match op {
        BinaryOp::Add => " + "@,
        BinaryOp::Sub => " - "@,
        BinaryOp::Mul => " * "@,
        BinaryOp::Div => " / "@,
        BinaryOp::Eq => " == "@,
        BinaryOp::And => " && "@,
        BinaryOp::Or => " || "@,
    });
}

/// A conditional is written `(cond ? yes : no)`, a field access as the base,
/// a dot and the field's name, a call as the function's name and its
/// arguments in parentheses, and variable number `n` as `var_n`.
pub proof fn lemma_expr_text_shapes(e: ExprView)
    ensures
        e matches ExprView::Branch { cond, yes, no, .. } ==> expr_text(e) == "("@ + expr_text(*cond) + " ? "@
            + expr_text(*yes) + " : "@ + expr_text(*no) + ")"@,
        e matches ExprView::Field { base, name, .. } ==> expr_text(e) == expr_text(*base) + "."@ + name,
        e matches ExprView::CallFunc { name, args, .. } ==> expr_text(e) == name + "("@ + args_text(args) + ")"@,
        e matches ExprView::Var { id, .. } ==> expr_text(e) == "var_"@ + decimal_text(id.0 as nat),
        e matches ExprView::Arg { name, .. } ==> expr_text(e) == name,
        e matches ExprView::ScalarLiteral { value, .. } ==> expr_text(e) == value,
{
    reveal_strlit("var_");
}

/// Arguments are written one after the other, separated by `, `.
pub proof fn lemma_args_text_joined(args: Seq<ExprView>, e: ExprView)
    ensures
        args_text(seq![e]) == expr_text(e),
        args.len() > 0 ==> args_text(args.push(e)) == args_text(args) + ", "@ + expr_text(e),
{
    assert(seq![e].len() == 1);
    if args.len() > 0 {
        assert(args.push(e).drop_last() =~= args);
    }
}

/// A list of arguments, separated by `, `.
pub open spec fn args_text(args: Seq<ExprView>) -> Seq<char>
    decreases args,
{
    if args.len() == 0 {
        seq![]
    } else if args.len() == 1 {
        expr_text(args[0])
    } else {
        args_text(args.drop_last()) + ", "@ + expr_text(args.last())
    }
}

/// Appends the GLSL text of `e` to `f`.
pub fn write_expr(f: &mut String, e: &SimplifiedExpr)
    ensures
        final(f)@ == old(f)@ + expr_text(e@),
    decreases e,
{
    match e {
        SimplifiedExpr::Arg { name, .. } => {
            f.append(name.as_str());
        },
        SimplifiedExpr::ScalarLiteral { value, .. } => {
            f.append(value.as_str());
        },
        SimplifiedExpr::Binary { left, op, right, .. } => {
            f.append("(");
            write_expr(f, &**left);
            f.append(" ");
            f.append(op_str(*op));
            f.append(" ");
            write_expr(f, &**right);
            f.append(")");
        },
        SimplifiedExpr::CallFunc { name, args, .. } => {
            f.append(name.as_str());
            f.append("(");
            assert(decreases_to!(e => args@));
            write_args(f, args);
            f.append(")");
        },
        SimplifiedExpr::Field { base, name, .. } => {
            write_expr(f, &**base);
            f.append(".");
            f.append(name.as_str());
        },
        SimplifiedExpr::Branch { cond, yes, no, .. } => {
            f.append("(");
            write_expr(f, &**cond);
            f.append(" ? ");
            write_expr(f, &**yes);
            f.append(" : ");
            write_expr(f, &**no);
            f.append(")");
        },
        SimplifiedExpr::Var { id, .. } => {
            f.append("var_");
            push_decimal(f, id.0);
        },
    }
}

/// Appends the arguments `args`, separated by `, `, to `f`.
fn write_args(f: &mut String, args: &Vec<SimplifiedExpr>)
    ensures
        final(f)@ == old(f)@ + args_text(list_view(args@)),
    decreases args@,
{
    proof {
        lemma_list_view(args@);
    }
    let ghost v = list_view(args@);
    let mut i: usize = 0;
    while i < args.len()
        invariant
            i <= args.len(),
            v == list_view(args@),
            v.len() == args@.len(),
            forall|j: int| 0 <= j < args@.len() ==> #[trigger] v[j] == expr_view(args@[j]),
            f@ == old(f)@ + args_text(v.take(i as int)),
        decreases args.len() - i,
    {
        assert(decreases_to!(args@ => args@[i as int]));
        let ghost before = f@;
        if i > 0 {
            f.append(", ");
        }
        write_expr(f, &args[i]);
        proof {
            let t = v.take(i + 1);
            assert(t.drop_last() == v.take(i as int));
            assert(t.last() == v[i as int]);
            if i == 0 {
                assert(args_text(t) == expr_text(t[0]));
                assert(v.take(0) == Seq::<ExprView>::empty());
            }
        }
        i = i + 1;
    }
    assert(v.take(args.len() as int) == v);
}

} // verus!

verus! {

/// Every variable that `e` refers to, at any depth, is numbered below `bound`.
pub open spec fn var_refs_below(e: ExprView, bound: nat) -> bool
    decreases e,
{
    match e {
        ExprView::Arg { .. } => true,
        ExprView::ScalarLiteral { .. } => true,
        ExprView::Binary { left, right, .. } => var_refs_below(*left, bound) && var_refs_below(*right, bound),
        ExprView::CallFunc { args, .. } => args_refs_below(args, bound),
        ExprView::Field { base, .. } => var_refs_below(*base, bound),
        ExprView::Branch { cond, yes, no, .. } => var_refs_below(*cond, bound) && var_refs_below(*yes, bound)
            && var_refs_below(*no, bound),
        ExprView::Var { id, .. } => id.0 < bound,
    }
}

/// Every variable that the expressions `args` refer to is numbered below
/// `bound`.
pub open spec fn args_refs_below(args: Seq<ExprView>, bound: nat) -> bool
    decreases args,
{
    if args.len() == 0 {
        true
    } else {
        args_refs_below(args.drop_last(), bound) && var_refs_below(args.last(), bound)
    }
}

} // verus!
