//! What the generated C text is made of, stated for every input: the order in
//! which the parts of an expression, a statement and a program appear.
use vstd::prelude::*;
use crate::codegen::spec::{emit_args, emit_expr, emit_fields, spec_operator, Emitted};
use crate::codegen::statements::{
    drop_lines, emit_fun_stmt, return_text, emit_prog, preamble, lemma_body_stop_is_no_text, lemma_header_stop_is_no_text,
    block_prefix, body_run, emit_binding, emit_block, emit_else_ifs, emit_for_stmt, emit_if, emit_stmt,
    header_run, range_bounds,
};
use crate::parser::expression::RangeKind;
use crate::parser::statement::IfStatement;
use crate::typechecker::error::BindingKind;
use crate::typechecker::checker::spec_infer;
use crate::codegen::spec::spec_c_type;
use crate::lexer::span::Span;
use crate::lexer::token::Token;
use crate::parser::expression::{Expression, StructLiteralField};
use crate::parser::statement::{ElseIf, Statement};
use crate::typechecker::checker::{ck_push, spec_collect, CheckerView};
use crate::text::join;

verus! {

/// The text that an emitted outcome carries, if it is text.
pub open spec fn text_of(e: Emitted) -> Option<Seq<char>> {
    match e {
        Emitted::Text(t) => Some(t),
        _ => None,
    }
}

/// Whether `p` is where `t` starts.
pub open spec fn starts_with(t: Seq<char>, p: Seq<char>) -> bool {
    p.len() <= t.len() && t.subrange(0, p.len() as int) == p
}

/// A prefix operator comes before its operand: the C text of `op right` is the
/// C operator, and after it exactly the operand's C text.
pub proof fn law_prefix_operator_first(ck: CheckerView, op: Token, right: Expression, span: Span)
    requires
        spec_operator(op) is Some,
        emit_expr(ck, right) is Text,
    ensures
        ({
            let o = spec_operator(op)->0;
            let r = emit_expr(ck, right)->Text_0;
            let t = emit_expr(ck, Expression::Prefix { operator: op, right: Box::new(right), span });
            &&& t is Text
            &&& t->Text_0.len() == o.len() + r.len()
            &&& starts_with(t->Text_0, o)
            &&& t->Text_0.subrange(o.len() as int, t->Text_0.len() as int) == r
        }),
{
    let o = spec_operator(op)->0;
    let r = emit_expr(ck, right)->Text_0;
    let t = emit_expr(ck, Expression::Prefix { operator: op, right: Box::new(right), span })->Text_0;
    assert(t == o + r);
    assert(t.subrange(0, o.len() as int) =~= o);
    assert(t.subrange(o.len() as int, t.len() as int) =~= r);
}

/// A postfix operator comes after its operand: the C text of `left op` is the
/// operand's C text, and after it exactly the C operator.
pub proof fn law_postfix_operator_last(ck: CheckerView, op: Token, left: Expression, span: Span)
    requires
        spec_operator(op) is Some,
        emit_expr(ck, left) is Text,
    ensures
        ({
            let o = spec_operator(op)->0;
            let l = emit_expr(ck, left)->Text_0;
            let t = emit_expr(ck, Expression::Postfix { left: Box::new(left), operator: op, span });
            &&& t is Text
            &&& t->Text_0.len() == l.len() + o.len()
            &&& starts_with(t->Text_0, l)
            &&& t->Text_0.subrange(l.len() as int, t->Text_0.len() as int) == o
        }),
{
    let o = spec_operator(op)->0;
    let l = emit_expr(ck, left)->Text_0;
    let t = emit_expr(ck, Expression::Postfix { left: Box::new(left), operator: op, span })->Text_0;
    assert(t == l + o);
    assert(t.subrange(0, l.len() as int) =~= l);
    assert(t.subrange(l.len() as int, t.len() as int) =~= o);
}

/// Each `else if` branch adds its part after those of the branches before it:
/// the text of the first n - 1 branches is where the text of all n starts, and
/// the rest is `else if (c) {`, the branch's block and `}`, with `c` the C text
/// of the branch's condition.
pub proof fn law_else_if_appends(ck: CheckerView, eis: Seq<ElseIf>)
    requires
        eis.len() > 0,
        emit_else_ifs(ck, eis).out is Text,
    ensures
        ({
            let g = emit_else_ifs(ck, eis.drop_last());
            let t = emit_else_ifs(ck, eis).out->Text_0;
            let c = emit_expr(g.ck, eis.last().condition);
            let b = emit_block(g.ck, eis.last().block@).out;
            &&& g.out is Text
            &&& c is Text
            &&& b is Text
            &&& starts_with(t, g.out->Text_0)
            &&& t.subrange(g.out->Text_0.len() as int, t.len() as int) == "else if ("@ + c->Text_0
                + ") {\n"@ + b->Text_0 + "\n}\n"@
        }),
{
    let g = emit_else_ifs(ck, eis.drop_last());
    let t = emit_else_ifs(ck, eis).out->Text_0;
    let before = g.out->Text_0;
    let rest = t.subrange(before.len() as int, t.len() as int);
    assert(t.subrange(0, before.len() as int) =~= before);
    assert(rest =~= "else if ("@ + emit_expr(g.ck, eis.last().condition)->Text_0 + ") {\n"@
        + emit_block(g.ck, eis.last().block@).out->Text_0 + "\n}\n"@);
}

/// No `else if` branch is lost: the text of the first k branches is where the
/// text of all of them starts, for every k, and it is shorter when k is.
pub proof fn law_else_if_keeps_every_branch(ck: CheckerView, eis: Seq<ElseIf>, k: int)
    requires
        0 <= k <= eis.len(),
        emit_else_ifs(ck, eis).out is Text,
    ensures
        emit_else_ifs(ck, eis.take(k)).out is Text,
        starts_with(emit_else_ifs(ck, eis).out->Text_0, emit_else_ifs(ck, eis.take(k)).out->Text_0),
        k < eis.len() ==> emit_else_ifs(ck, eis.take(k)).out->Text_0.len() < emit_else_ifs(
            ck,
            eis,
        ).out->Text_0.len(),
    decreases eis.len(),
{
    if k == eis.len() {
        assert(eis.take(k) =~= eis);
        let t = emit_else_ifs(ck, eis).out->Text_0;
        assert(t.subrange(0, t.len() as int) =~= t);
    } else {
        law_else_if_appends(ck, eis);
        let d = eis.drop_last();
        law_else_if_keeps_every_branch(ck, d, k);
        assert(d.take(k) =~= eis.take(k));
        let t = emit_else_ifs(ck, eis).out->Text_0;
        let m = emit_else_ifs(ck, d).out->Text_0;
        let s = emit_else_ifs(ck, eis.take(k)).out->Text_0;
        assert(t.subrange(0, s.len() as int) =~= m.subrange(0, s.len() as int));
        let rest = t.subrange(m.len() as int, t.len() as int);
        reveal_strlit("else if (");
        assert(rest.len() >= ("else if ("@).len());
        assert(("else if ("@).len() > 0);
        assert(s.len() <= m.len());
        assert(m.len() <= t.len());
        assert(s.len() < t.len());
    }
}

/// A counter `for` loop is `for (` + its init's C text + ` ` + its condition's
/// C text + `; ` + its step's C text + `) {`, in that order: the condition is
/// tested before each round and the step follows it.
pub proof fn law_for_counter_order(
    ck: CheckerView,
    init: Statement,
    condition: Expression,
    post: Expression,
    body: Vec<Statement>,
    span: Span,
)
    requires
        emit_for_stmt(
            ck,
            Statement::ForCounter { init: Box::new(init), condition, post, body, span },
        ).out is Text,
    ensures
        ({
            let g = emit_stmt(ck_push(ck), init);
            let c = emit_expr(g.ck, condition);
            let p = emit_expr(g.ck, post);
            let t = emit_for_stmt(
                ck,
                Statement::ForCounter { init: Box::new(init), condition, post, body, span },
            ).out->Text_0;
            &&& g.out is Text
            &&& c is Text
            &&& p is Text
            &&& starts_with(
                t,
                "for ("@ + g.out->Text_0 + " "@ + c->Text_0 + "; "@ + p->Text_0 + ") {\n"@,
            )
        }),
{
    let s = Statement::ForCounter { init: Box::new(init), condition, post, body, span };
    let g = emit_stmt(ck_push(ck), init);
    let c = emit_expr(g.ck, condition)->Text_0;
    let p = emit_expr(g.ck, post)->Text_0;
    let h = "for ("@ + g.out->Text_0 + " "@ + c + "; "@ + p + ") {\n"@;
    let t = emit_for_stmt(ck, s).out->Text_0;
    let bt = emit_block(g.ck, body@).out->Text_0;
    assert(t == h + bt + "\n}"@);
    assert(t.subrange(0, h.len() as int) =~= h);
}

/// The names of a program's constant declarations, in order.
pub open spec fn constant_names(decls: Seq<Statement>) -> Seq<Seq<char>>
    decreases decls.len(),
{
    if decls.len() == 0 {
        Seq::empty()
    } else {
        let rest = constant_names(decls.drop_last());
        match decls.last() {
            Statement::Const { name, .. } => rest.push(name@),
            _ => rest,
        }
    }
}

/// Every constant declaration gets its `#define`, in declaration order: when
/// the first pass over the declarations succeeds, there is one define line per
/// constant, and line i starts with `#define ` and the name of constant i.
pub proof fn law_one_define_per_constant(ck: CheckerView, decls: Seq<Statement>)
    requires
        header_run(ck, decls).stop is None,
    ensures
        header_run(ck, decls).defines.len() == constant_names(decls).len(),
        forall|i: int|
            0 <= i < constant_names(decls).len() ==> starts_with(
                #[trigger] header_run(ck, decls).defines[i],
                "#define "@ + constant_names(decls)[i] + " "@,
            ),
    decreases decls.len(),
{
    if decls.len() > 0 {
        let d = decls.drop_last();
        let r = header_run(ck, d);
        assert(r.stop is None);
        law_one_define_per_constant(ck, d);
        let h = header_run(ck, decls);
        match decls.last() {
            Statement::Const { name, value, .. } => {
                let v = emit_expr(r.ck, value)->Text_0;
                let line = "#define "@ + name@ + " "@ + v;
                assert(h.defines == r.defines.push(line));
                let p = "#define "@ + name@ + " "@;
                assert(line.subrange(0, p.len() as int) =~= p);
                assert forall|i: int| 0 <= i < constant_names(decls).len() implies starts_with(
                    #[trigger] h.defines[i],
                    "#define "@ + constant_names(decls)[i] + " "@,
                ) by {
                    if i < r.defines.len() {
                        assert(h.defines[i] == r.defines[i]);
                        assert(constant_names(decls)[i] == constant_names(d)[i]);
                    }
                }
            },
            _ => {},
        }
    }
}

/// `a` is where `a + b` starts, and `b` is what follows it.
proof fn lemma_parts(a: Seq<char>, b: Seq<char>)
    ensures
        starts_with(a + b, a),
        (a + b).subrange(a.len() as int, (a + b).len() as int) == b,
{
    assert((a + b).subrange(0, a.len() as int) =~= a);
    assert((a + b).subrange(a.len() as int, (a + b).len() as int) =~= b);
}

/// An infix operator stands between its operands, the left one first: for an
/// operator other than `**` and other than `+` on two strings, the C text is
/// `(`, the left operand's text, ` op `, the right operand's text and `)`.
pub proof fn law_infix_left_then_operator_then_right(
    ck: CheckerView,
    left: Expression,
    op: Token,
    right: Expression,
    span: Span,
)
    requires
        !(op is Power),
        !(op is Add && spec_infer(ck, left) is String && spec_infer(ck, right) is String),
        spec_operator(op) is Some,
        emit_expr(ck, left) is Text,
        emit_expr(ck, right) is Text,
    ensures
        ({
            let l = emit_expr(ck, left)->Text_0;
            let o = spec_operator(op)->0;
            let r = emit_expr(ck, right)->Text_0;
            let t = emit_expr(
                ck,
                Expression::Infix { left: Box::new(left), operator: op, right: Box::new(right), span },
            );
            &&& t is Text
            &&& starts_with(t->Text_0, "("@ + l + " "@ + o + " "@)
            &&& t->Text_0.subrange(("("@ + l + " "@ + o + " "@).len() as int, t->Text_0.len() as int)
                == r + ")"@
        }),
{
    let l = emit_expr(ck, left)->Text_0;
    let o = spec_operator(op)->0;
    let r = emit_expr(ck, right)->Text_0;
    let h = "("@ + l + " "@ + o + " "@;
    let t = emit_expr(
        ck,
        Expression::Infix { left: Box::new(left), operator: op, right: Box::new(right), span },
    )->Text_0;
    assert(t =~= h + (r + ")"@));
    lemma_parts(h, r + ")"@);
}

/// `a ** b` is `pow(a, b)`, the base first.
pub proof fn law_power_base_first(ck: CheckerView, left: Expression, right: Expression, span: Span)
    requires
        emit_expr(ck, left) is Text,
        emit_expr(ck, right) is Text,
    ensures
        ({
            let l = emit_expr(ck, left)->Text_0;
            let r = emit_expr(ck, right)->Text_0;
            let t = emit_expr(
                ck,
                Expression::Infix {
                    left: Box::new(left),
                    operator: Token::Power,
                    right: Box::new(right),
                    span,
                },
            );
            &&& t is Text
            &&& starts_with(t->Text_0, "pow("@ + l + ", "@)
            &&& t->Text_0.subrange(("pow("@ + l + ", "@).len() as int, t->Text_0.len() as int) == r
                + ")"@
        }),
{
    let l = emit_expr(ck, left)->Text_0;
    let r = emit_expr(ck, right)->Text_0;
    let h = "pow("@ + l + ", "@;
    let t = emit_expr(
        ck,
        Expression::Infix { left: Box::new(left), operator: Token::Power, right: Box::new(right), span },
    )->Text_0;
    assert(t =~= h + (r + ")"@));
    lemma_parts(h, r + ")"@);
}

/// `a + b` on two strings is `vio_str_concat(a, b)`, the left one first.
pub proof fn law_concat_left_first(ck: CheckerView, left: Expression, right: Expression, span: Span)
    requires
        spec_infer(ck, left) is String,
        spec_infer(ck, right) is String,
        emit_expr(ck, left) is Text,
        emit_expr(ck, right) is Text,
    ensures
        ({
            let l = emit_expr(ck, left)->Text_0;
            let r = emit_expr(ck, right)->Text_0;
            let t = emit_expr(
                ck,
                Expression::Infix {
                    left: Box::new(left),
                    operator: Token::Add,
                    right: Box::new(right),
                    span,
                },
            );
            &&& t is Text
            &&& starts_with(t->Text_0, "vio_str_concat("@ + l + ", "@)
            &&& t->Text_0.subrange(
                ("vio_str_concat("@ + l + ", "@).len() as int,
                t->Text_0.len() as int,
            ) == r + ")"@
        }),
{
    let l = emit_expr(ck, left)->Text_0;
    let r = emit_expr(ck, right)->Text_0;
    let h = "vio_str_concat("@ + l + ", "@;
    let t = emit_expr(
        ck,
        Expression::Infix { left: Box::new(left), operator: Token::Add, right: Box::new(right), span },
    )->Text_0;
    assert(t =~= h + (r + ")"@));
    lemma_parts(h, r + ")"@);
}

/// A field access is the object's C text, `.`, and the field's name.
pub proof fn law_field_after_object(ck: CheckerView, object: Expression, name: String, span: Span)
    requires
        emit_expr(ck, object) is Text,
    ensures
        ({
            let o = emit_expr(ck, object)->Text_0;
            let t = emit_expr(ck, Expression::Field { object: Box::new(object), name, span });
            &&& t is Text
            &&& starts_with(t->Text_0, o)
            &&& t->Text_0.subrange(o.len() as int, t->Text_0.len() as int) == "."@ + name@
        }),
{
    let o = emit_expr(ck, object)->Text_0;
    lemma_parts(o, "."@ + name@);
    assert(emit_expr(ck, Expression::Field { object: Box::new(object), name, span })->Text_0 =~= o
        + ("."@ + name@));
}

/// No call argument is lost: the C text of the first n - 1 arguments is where
/// that of all n starts, followed by `, ` and the last argument's C text (the
/// first argument alone is just its text).
pub proof fn law_args_append(ck: CheckerView, es: Seq<Expression>)
    requires
        es.len() > 0,
        emit_args(ck, es) is Text,
    ensures
        emit_args(ck, es.drop_last()) is Text,
        emit_expr(ck, es.last()) is Text,
        es.len() == 1 ==> emit_args(ck, es)->Text_0 == emit_expr(ck, es.last())->Text_0,
        es.len() > 1 ==> {
            let before = emit_args(ck, es.drop_last())->Text_0;
            let t = emit_args(ck, es)->Text_0;
            &&& starts_with(t, before)
            &&& t.subrange(before.len() as int, t.len() as int) == ", "@ + emit_expr(
                ck,
                es.last(),
            )->Text_0
        },
{
    if es.len() > 1 {
        let before = emit_args(ck, es.drop_last())->Text_0;
        let a = emit_expr(ck, es.last())->Text_0;
        assert(emit_args(ck, es)->Text_0 =~= before + (", "@ + a));
        lemma_parts(before, ", "@ + a);
    }
}

/// A condition loop is `while (`, the condition's C text, `) {`, and its body.
pub proof fn law_while_condition_first(
    ck: CheckerView,
    condition: Expression,
    body: Vec<Statement>,
    span: Span,
)
    requires
        emit_for_stmt(ck, Statement::ForCondition { condition, body, span }).out is Text,
    ensures
        ({
            let c = emit_expr(ck_push(ck), condition);
            let b = emit_block(ck_push(ck), body@).out;
            let t = emit_for_stmt(ck, Statement::ForCondition { condition, body, span }).out->Text_0;
            &&& c is Text
            &&& b is Text
            &&& starts_with(t, "while ("@ + c->Text_0 + ") {\n"@)
            &&& t.subrange(("while ("@ + c->Text_0 + ") {\n"@).len() as int, t.len() as int)
                == b->Text_0 + "\n}"@
        }),
{
    let c = emit_expr(ck_push(ck), condition)->Text_0;
    let bt = emit_block(ck_push(ck), body@).out->Text_0;
    let h = "while ("@ + c + ") {\n"@;
    assert(emit_for_stmt(ck, Statement::ForCondition { condition, body, span }).out->Text_0 =~= h
        + (bt + "\n}"@));
    lemma_parts(h, bt + "\n}"@);
}

/// A range loop counts its variable from the range's start up to its end:
/// `for (int64_t v = start; v cmp end; v++) {`, where `cmp` is `<=` for an
/// inclusive range and `<` for an exclusive one.
pub proof fn law_range_loop_bounds(
    ck: CheckerView,
    variable: String,
    start: Expression,
    end: Expression,
    kind: RangeKind,
    rspan: Span,
    body: Vec<Statement>,
    span: Span,
)
    requires
        emit_for_stmt(
            ck,
            Statement::ForRange {
                variable,
                iterable: Expression::Range {
                    start: Some(Box::new(start)),
                    end: Some(Box::new(end)),
                    range_kind: kind,
                    span: rspan,
                },
                body,
                span,
            },
        ).out is Text,
    ensures
        ({
            let st = emit_expr(ck_push(ck), start);
            let en = emit_expr(ck_push(ck), end);
            let v = variable@;
            let cmp = if kind is Inclusive {
                "<="@
            } else {
                "<"@
            };
            let t = emit_for_stmt(
                ck,
                Statement::ForRange {
                    variable,
                    iterable: Expression::Range {
                        start: Some(Box::new(start)),
                        end: Some(Box::new(end)),
                        range_kind: kind,
                        span: rspan,
                    },
                    body,
                    span,
                },
            ).out->Text_0;
            &&& st is Text
            &&& en is Text
            &&& starts_with(
                t,
                "for (int64_t "@ + v + " = "@ + st->Text_0 + "; "@ + v + " "@ + cmp + " "@
                    + en->Text_0 + "; "@ + v + "++) {\n"@,
            )
        }),
{
    let c1 = ck_push(ck);
    let it = Expression::Range {
        start: Some(Box::new(start)),
        end: Some(Box::new(end)),
        range_kind: kind,
        span: rspan,
    };
    let rb = range_bounds(c1, it);
    assert(rb is Ok);
    let st = emit_expr(c1, start)->Text_0;
    let en = emit_expr(c1, end)->Text_0;
    let v = variable@;
    let cmp = if kind is Inclusive {
        "<="@
    } else {
        "<"@
    };
    assert(rb == Ok::<(Seq<char>, Seq<char>, Seq<char>), Emitted>((st, en, cmp)));
    let h = "for (int64_t "@ + v + " = "@ + st + "; "@ + v + " "@ + cmp + " "@ + en + "; "@ + v
        + "++) {\n"@;
    let s = Statement::ForRange { variable, iterable: it, body, span };
    let g = emit_for_stmt(ck, s);
    let bt = emit_block(
        crate::typechecker::checker::spec_defined(c1, v, crate::typechecker::types::TyView::Int, BindingKind::Var, span),
        body@,
    ).out->Text_0;
    assert(g.out->Text_0 =~= h + (bt + "\n}"@));
    lemma_parts(h, bt + "\n}"@);
}

/// A binding is a C declaration: the C type of the value's type, the name,
/// ` = ` and the value's C text, in that order, ending with `;`.
pub proof fn law_binding_declares_then_assigns(
    ck: CheckerView,
    name: Seq<char>,
    value: Expression,
    span: Span,
    kind: BindingKind,
)
    requires
        emit_binding(ck, name, value, span, kind).out is Text,
    ensures
        ({
            let v = emit_expr(ck, value);
            let h = spec_c_type(spec_infer(ck, value)) + " "@ + name + " = "@;
            let t = emit_binding(ck, name, value, span, kind).out->Text_0;
            &&& v is Text
            &&& starts_with(t, h)
            &&& t.subrange(h.len() as int, t.len() as int) == v->Text_0 + ";"@
        }),
{
    let v = emit_expr(ck, value)->Text_0;
    let h = spec_c_type(spec_infer(ck, value)) + " "@ + name + " = "@;
    assert(emit_binding(ck, name, value, span, kind).out->Text_0 =~= h + (v + ";"@));
    lemma_parts(h, v + ";"@);
}

/// An `if` statement is `if (c) {`, its block and `}`, then its `else if`
/// branches in order, then, when it has an `else` block, `else {`, that
/// block and `}`.
#[verifier::rlimit(40)]
pub proof fn law_if_branches_in_order(ck: CheckerView, st: IfStatement)
    requires
        emit_if(ck, Statement::If(st)).out is Text,
    ensures
        ({
            let c1 = ck_push(ck);
            let c = emit_expr(c1, st.condition);
            let g = emit_block(c1, st.then_block@);
            let ei = emit_else_ifs(g.ck, st.else_if@);
            let head = "if ("@ + c->Text_0 + ") {\n"@ + g.out->Text_0 + "\n}\n"@;
            let t = emit_if(ck, Statement::If(st)).out->Text_0;
            &&& c is Text
            &&& g.out is Text
            &&& ei.out is Text
            &&& starts_with(t, head + ei.out->Text_0)
            &&& st.else_block@.len() == 0 ==> t == head + ei.out->Text_0
            &&& st.else_block@.len() > 0 ==> t.subrange(
                (head + ei.out->Text_0).len() as int,
                t.len() as int,
            ) == "else {\n"@ + emit_block(ei.ck, st.else_block@).out->Text_0 + "\n}\n"@
        }),
{
    let c1 = ck_push(ck);
    let c = emit_expr(c1, st.condition)->Text_0;
    let g = emit_block(c1, st.then_block@);
    let ei = emit_else_ifs(g.ck, st.else_if@);
    let h = "if ("@ + c + ") {\n"@ + g.out->Text_0 + "\n}\n"@ + ei.out->Text_0;
    let t = emit_if(ck, Statement::If(st)).out->Text_0;
    if st.else_block@.len() == 0 {
        assert(t == h);
        assert(t.subrange(0, h.len() as int) =~= h);
    } else {
        let el = "else {\n"@ + emit_block(ei.ck, st.else_block@).out->Text_0 + "\n}\n"@;
        assert(t == h + el);
        lemma_parts(h, el);
    }
}

/// No statement of a block is lost: when the block is generated, the lines of
/// its first k statements are where its lines start, for every k, and the
/// strings those statements bound are where its strings start.
pub proof fn law_block_keeps_every_statement(ck: CheckerView, body: Seq<Statement>, k: int)
    requires
        0 <= k <= body.len(),
        block_prefix(ck, body).stop is None,
    ensures
        block_prefix(ck, body.take(k)).stop is None,
        block_prefix(ck, body.take(k)).lines.len() <= block_prefix(ck, body).lines.len(),
        block_prefix(ck, body).lines.subrange(0, block_prefix(ck, body.take(k)).lines.len() as int)
            == block_prefix(ck, body.take(k)).lines,
        block_prefix(ck, body.take(k)).drops.len() <= block_prefix(ck, body).drops.len(),
        block_prefix(ck, body).drops.subrange(0, block_prefix(ck, body.take(k)).drops.len() as int)
            == block_prefix(ck, body.take(k)).drops,
    decreases body.len(),
{
    if k == body.len() {
        assert(body.take(k) =~= body);
        let r = block_prefix(ck, body);
        assert(r.lines.subrange(0, r.lines.len() as int) =~= r.lines);
        assert(r.drops.subrange(0, r.drops.len() as int) =~= r.drops);
    } else {
        let d = body.drop_last();
        assert(block_prefix(ck, d).stop is None);
        law_block_keeps_every_statement(ck, d, k);
        assert(d.take(k) =~= body.take(k));
        let all = block_prefix(ck, body);
        let m = block_prefix(ck, d);
        let s = block_prefix(ck, body.take(k));
        assert(all.lines.subrange(0, m.lines.len() as int) =~= m.lines);
        assert(all.lines.subrange(0, s.lines.len() as int) =~= m.lines.subrange(
            0,
            s.lines.len() as int,
        ));
        assert(all.drops.subrange(0, m.drops.len() as int) =~= m.drops);
        assert(all.drops.subrange(0, s.drops.len() as int) =~= m.drops.subrange(
            0,
            s.drops.len() as int,
        ));
    }
}

/// No field of a struct literal is lost: the C text of the first n - 1 fields
/// is where that of all n starts, followed by `, .`, the last field's name,
/// ` = ` and its value's C text (the first field alone is `name = value`).
pub proof fn law_fields_append(ck: CheckerView, fs: Seq<StructLiteralField>)
    requires
        fs.len() > 0,
        emit_fields(ck, fs) is Text,
    ensures
        ({
            let item = fs.last().field_name@ + " = "@ + emit_expr(ck, *fs.last().field_val)->Text_0;
            let t = emit_fields(ck, fs)->Text_0;
            &&& emit_fields(ck, fs.drop_last()) is Text
            &&& emit_expr(ck, *fs.last().field_val) is Text
            &&& fs.len() == 1 ==> t == item
            &&& fs.len() > 1 ==> {
                let before = emit_fields(ck, fs.drop_last())->Text_0;
                &&& starts_with(t, before)
                &&& t.subrange(before.len() as int, t.len() as int) == ", ."@ + item
            }
        }),
{
    if fs.len() > 1 {
        let before = emit_fields(ck, fs.drop_last())->Text_0;
        let item = fs.last().field_name@ + " = "@ + emit_expr(ck, *fs.last().field_val)->Text_0;
        assert(emit_fields(ck, fs)->Text_0 =~= before + (", ."@ + item));
        lemma_parts(before, ", ."@ + item);
    }
}

/// No declaration of a program is lost: when the second pass over the
/// declarations succeeds, the lines of its first k declarations are where its
/// lines start, for every k.
pub proof fn law_declarations_keep_order(ck: CheckerView, decls: Seq<Statement>, k: int)
    requires
        0 <= k <= decls.len(),
        body_run(ck, decls).stop is None,
    ensures
        body_run(ck, decls.take(k)).stop is None,
        body_run(ck, decls.take(k)).lines.len() <= body_run(ck, decls).lines.len(),
        body_run(ck, decls).lines.subrange(0, body_run(ck, decls.take(k)).lines.len() as int)
            == body_run(ck, decls.take(k)).lines,
    decreases decls.len(),
{
    reveal(body_run);
    if k == decls.len() {
        assert(decls.take(k) =~= decls);
        let r = body_run(ck, decls);
        assert(r.lines.subrange(0, r.lines.len() as int) =~= r.lines);
    } else {
        let d = decls.drop_last();
        assert(body_run(ck, d).stop is None);
        law_declarations_keep_order(ck, d, k);
        assert(d.take(k) =~= decls.take(k));
        let all = body_run(ck, decls);
        let m = body_run(ck, d);
        let s = body_run(ck, decls.take(k));
        assert(all.lines.subrange(0, m.lines.len() as int) =~= m.lines);
        assert(all.lines.subrange(0, s.lines.len() as int) =~= m.lines.subrange(
            0,
            s.lines.len() as int,
        ));
    }
}

/// A call of a function other than the print and read built-ins is the
/// function's C text, `(`, the arguments' C text and `)`.
pub proof fn law_call_function_then_arguments(
    ck: CheckerView,
    function: Expression,
    args: Vec<Expression>,
    span: Span,
)
    requires
        !(function is Identifier),
        emit_expr(ck, function) is Text,
        emit_args(ck, args@) is Text,
    ensures
        ({
            let f = emit_expr(ck, function)->Text_0;
            let a = emit_args(ck, args@)->Text_0;
            let t = emit_expr(ck, Expression::Call { function: Box::new(function), args, span });
            &&& t is Text
            &&& starts_with(t->Text_0, f + "("@)
            &&& t->Text_0.subrange((f + "("@).len() as int, t->Text_0.len() as int) == a + ")"@
        }),
{
    let f = emit_expr(ck, function)->Text_0;
    let a = emit_args(ck, args@)->Text_0;
    assert(emit_expr(ck, Expression::Call { function: Box::new(function), args, span })->Text_0
        =~= (f + "("@) + (a + ")"@));
    lemma_parts(f + "("@, a + ")"@);
}

/// The strings a block bound are freed in the reverse of the order they were
/// bound in: drop line i frees the i-th string counted from the last.
pub proof fn law_drops_last_bound_first(names: Seq<Seq<char>>, i: int)
    requires
        0 <= i < names.len(),
    ensures
        drop_lines(names).len() == names.len(),
        starts_with(drop_lines(names)[i], "    vio_str_drop("@),
        drop_lines(names)[i].subrange(("    vio_str_drop("@).len() as int, drop_lines(names)[i].len() as int)
            == names[names.len() - 1 - i] + ");"@,
{
    let x = names[names.len() - 1 - i];
    assert(drop_lines(names)[i] =~= "    vio_str_drop("@ + (x + ");"@));
    lemma_parts("    vio_str_drop("@, x + ");"@);
}

proof fn lemma_join_push(parts: Seq<Seq<char>>, x: Seq<char>, sep: Seq<char>)
    requires
        parts.len() >= 1,
    ensures
        join(parts.push(x), sep) == join(parts, sep) + sep + x,
{
    assert(parts.push(x).drop_last() =~= parts);
}

/// A program with top-level statements ends with them as `main`: its C file
/// ends with `int main(void) {`, a line feed, the statements' block, a line
/// feed, `}` and a line feed.
pub proof fn law_main_comes_last(ck: CheckerView, decls: Seq<Statement>, main: Seq<Statement>)
    requires
        main.len() > 0,
        emit_prog(ck, decls, main).out is Text,
    ensures
        ({
            let h = header_run(ck_push(spec_collect(ck, decls)), decls);
            let b = body_run(h.ck, decls);
            let m = emit_block(b.ck, main).out;
            let t = emit_prog(ck, decls, main).out->Text_0;
            let tail = "int main(void) {"@ + "\n"@ + m->Text_0 + "\n"@ + "}"@ + "\n"@;
            &&& m is Text
            &&& tail.len() <= t.len()
            &&& t.subrange(t.len() - tail.len(), t.len() as int) == tail
        }),
{
    let h = header_run(ck_push(spec_collect(ck, decls)), decls);
    let b = body_run(h.ck, decls);
    lemma_header_stop_is_no_text(ck_push(spec_collect(ck, decls)), decls);
    lemma_body_stop_is_no_text(h.ck, decls);
    assert(h.stop is None);
    assert(b.stop is None);
    assert(emit_block(b.ck, main).out is Text);
    let mt = emit_block(b.ck, main).out->Text_0;
    let sep = "\n"@;
    let p0 = preamble(h.defines) + b.lines;
    assert(p0.len() >= 1);
    let p1 = p0.push("int main(void) {"@);
    let p2 = p1.push(mt);
    let p3 = p2.push("}"@);
    assert(p3 =~= preamble(h.defines) + b.lines + seq!["int main(void) {"@, mt, "}"@]);
    lemma_join_push(p0, "int main(void) {"@, sep);
    lemma_join_push(p1, mt, sep);
    lemma_join_push(p2, "}"@, sep);
    let t = emit_prog(ck, decls, main).out->Text_0;
    assert(t == join(p3, sep) + sep);
    let j0 = join(p0, sep);
    let tail = "int main(void) {"@ + sep + mt + sep + "}"@ + sep;
    assert(t =~= (j0 + sep) + tail);
    lemma_parts(j0 + sep, tail);
}

/// `return e` is `return `, the value's C text and `;`.
pub proof fn law_return_value(ck: CheckerView, value: Expression, span: Span)
    requires
        emit_stmt(ck, Statement::Return { value: Some(value), span }).out is Text,
    ensures
        ({
            let v = emit_expr(ck, value);
            let t = emit_stmt(ck, Statement::Return { value: Some(value), span }).out->Text_0;
            &&& v is Text
            &&& starts_with(t, "return "@)
            &&& t.subrange(("return "@).len() as int, t.len() as int) == v->Text_0 + ";"@
        }),
{
    let v = emit_expr(ck, value)->Text_0;
    assert(emit_stmt(ck, Statement::Return { value: Some(value), span }).out->Text_0 =~= "return "@
        + (v + ";"@));
    lemma_parts("return "@, v + ";"@);
}

/// An expression statement is the expression's C text followed by `;`.
pub proof fn law_expression_statement(ck: CheckerView, expression: Expression, span: Span)
    requires
        emit_stmt(ck, Statement::Expression { expression, span }).out is Text,
    ensures
        ({
            let v = emit_expr(ck, expression);
            let t = emit_stmt(ck, Statement::Expression { expression, span }).out->Text_0;
            &&& v is Text
            &&& starts_with(t, v->Text_0)
            &&& t.subrange(v->Text_0.len() as int, t.len() as int) == ";"@
        }),
{
    let v = emit_expr(ck, expression)->Text_0;
    lemma_parts(v, ";"@);
}

/// A function definition starts with its C return type, a space and its name,
/// and ends with its body's block and `}`.
pub proof fn law_function_header_then_body(ck: CheckerView, s: Statement)
    requires
        s is Fun,
        emit_fun_stmt(ck, s).out is Text,
    ensures
        ({
            let t = emit_fun_stmt(ck, s).out->Text_0;
            let h = return_text(s->Fun_name@, s->Fun_return_type) + " "@ + s->Fun_name@;
            &&& starts_with(t, h)
        }),
{
    let t = emit_fun_stmt(ck, s).out->Text_0;
    let h = return_text(s->Fun_name@, s->Fun_return_type) + " "@ + s->Fun_name@;
    let rest = t.subrange(h.len() as int, t.len() as int);
    assert(t =~= h + rest);
    lemma_parts(h, rest);
}

} // verus!
