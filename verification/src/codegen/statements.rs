//! What the code generator produces for statements, blocks and programs,
//! stated as functions of the checker's state and the syntax tree. Each gives
//! the outcome together with the checker's state at the point where
//! generation stopped.
use vstd::prelude::*;
use crate::codegen::error::CgErr;
use crate::codegen::spec::{emit_expr, spec_c_type, Emitted};
use crate::lexer::span::Span;
use crate::parser::expression::Expression;
use crate::parser::statement::{ElseIf, FunParam, Statement};
use crate::text::{join, text_lines};
use crate::typechecker::checker::{
    ck_pop, ck_push, spec_collect, spec_defined, spec_infer, spec_resolve_type, CheckerView,
};
use crate::typechecker::error::BindingKind;
use crate::typechecker::types::TyView;

verus! {

/// An outcome together with the checker's state after it.
pub struct Gen {
    pub out: Emitted,
    pub ck: CheckerView,
}

/// How `std`'s `Debug` formatting writes a statement.
pub uninterp spec fn statement_debug(s: Statement) -> Seq<char>;

/// The error for a statement handed to the wrong generator.
pub open spec fn unexpected_statement(s: Statement) -> CgErr {
    CgErr::Unexpected(statement_debug(s))
}

/// The name and value of a `let`, `var` or `const` binding.
pub open spec fn binding_of(s: Statement) -> Option<(Seq<char>, Expression)> {
    match s {
        Statement::Let { name, value, .. } => Some((name@, value)),
        Statement::Var { name, value, .. } => Some((name@, value)),
        Statement::Const { name, value, .. } => Some((name@, value)),
        _ => None,
    }
}

/// A binding: `ctype name = value;`, after which the name is bound with the
/// value's type. A value of function type has no C type: that panics.
pub open spec fn emit_binding(
    ck: CheckerView,
    name: Seq<char>,
    value: Expression,
    span: Span,
    kind: BindingKind,
) -> Gen {
    match emit_expr(ck, value) {
        Emitted::Text(v) => {
            let t = spec_infer(ck, value);
            if t is Fn {
                Gen { out: Emitted::Panics, ck }
            } else {
                Gen {
                    out: Emitted::Text(spec_c_type(t) + " "@ + name + " = "@ + v + ";"@),
                    ck: spec_defined(ck, name, t, kind, span),
                }
            }
        },
        other => Gen { out: other, ck },
    }
}

/// The parameters bound in order, each as a `var` of its written type.
pub open spec fn bind_params(ck: CheckerView, ps: Seq<FunParam>, span: Span) -> CheckerView
    decreases ps.len(),
{
    if ps.len() == 0 {
        ck
    } else {
        spec_defined(
            bind_params(ck, ps.drop_last(), span),
            ps.last().name@,
            spec_resolve_type(ps.last().param_type),
            BindingKind::Var,
            span,
        )
    }
}

/// Each parameter as `ctype name`.
pub open spec fn param_texts(ps: Seq<FunParam>) -> Seq<Seq<char>> {
    Seq::new(
        ps.len(),
        |i: int| spec_c_type(spec_resolve_type(ps[i].param_type)) + " "@ + ps[i].name@,
    )
}

/// Each field as a tab, `ctype` and `name`.
pub open spec fn field_texts(fs: Seq<FunParam>) -> Seq<Seq<char>> {
    Seq::new(
        fs.len(),
        |i: int| "\t"@ + spec_c_type(spec_resolve_type(fs[i].param_type)) + " "@ + fs[i].name@,
    )
}

/// The lines of a block, each indented by four spaces.
pub open spec fn indent(ls: Seq<Seq<char>>) -> Seq<Seq<char>> {
    Seq::new(ls.len(), |i: int| "    "@ + ls[i])
}

/// The lines that free the block's strings, the one bound last first.
pub open spec fn drop_lines(names: Seq<Seq<char>>) -> Seq<Seq<char>> {
    Seq::new(
        names.len(),
        |i: int| "    vio_str_drop("@ + names[names.len() - 1 - i] + ");"@,
    )
}

/// The bounds and comparison of a `for` over a range: the start (`0` when it
/// has none), the end (an open range is unsupported) and `<=` for an
/// inclusive range, `<` otherwise.
pub open spec fn range_bounds(ck: CheckerView, e: Expression) -> Result<
    (Seq<char>, Seq<char>, Seq<char>),
    Emitted,
> {
    match e {
        Expression::Range { start, end, range_kind, .. } => {
            let s = match start {
                None => Emitted::Text("0"@),
                Some(x) => emit_expr(ck, *x),
            };
            match s {
                Emitted::Text(st) => {
                    let en = match end {
                        None => Emitted::Failed(CgErr::Unsupported("Open ranges"@)),
                        Some(x) => emit_expr(ck, *x),
                    };
                    match en {
                        Emitted::Text(et) => Ok(
                            (
                                st,
                                et,
                                if range_kind is Inclusive {
                                    "<="@
                                } else {
                                    "<"@
                                },
                            ),
                        ),
                        other => Err(other),
                    }
                },
                other => Err(other),
            }
        },
        _ => Err(Emitted::Failed(CgErr::Unsupported("For-loop expects a range"@))),
    }
}

/// Generation of a block in progress: the lines so far, the strings bound so
/// far, the checker's state, and the outcome that stopped it, if any.
pub struct BlockRun {
    pub lines: Seq<Seq<char>>,
    pub drops: Seq<Seq<char>>,
    pub ck: CheckerView,
    pub stop: Option<Emitted>,
}

/// The C code for a statement.
pub open spec fn emit_stmt(ck: CheckerView, s: Statement) -> Gen
    decreases s, 2nat,
{
    match s {
        Statement::Let { name, value, span } => emit_binding(ck, name@, value, span, BindingKind::Var),
        Statement::Var { name, value, span } => emit_binding(ck, name@, value, span, BindingKind::Var),
        Statement::Const { name, value, span } => emit_binding(
            ck,
            name@,
            value,
            span,
            BindingKind::Const,
        ),
        Statement::If(_) => emit_if(ck, s),
        Statement::Return { value, .. } => match value {
            None => Gen { out: Emitted::Text("return;"@), ck },
            Some(e) => match emit_expr(ck, e) {
                Emitted::Text(v) => Gen { out: Emitted::Text("return "@ + v + ";"@), ck },
                other => Gen { out: other, ck },
            },
        },
        Statement::Expression { expression, .. } => match emit_expr(ck, expression) {
            Emitted::Text(v) => Gen { out: Emitted::Text(v + ";"@), ck },
            other => Gen { out: other, ck },
        },
        Statement::ForCondition { .. } => emit_for_stmt(ck, s),
        Statement::ForCounter { .. } => emit_for_stmt(ck, s),
        Statement::ForRange { .. } => emit_for_stmt(ck, s),
        Statement::Fun { .. } => emit_fun_stmt(ck, s),
        Statement::Struct { .. } => emit_struct_stmt(ck, s),
    }
}

/// An `if` statement: one scope opened for the condition and all branches,
/// closed at the end; a failure leaves it open.
pub open spec fn emit_if(ck: CheckerView, s: Statement) -> Gen
    decreases s, 1nat,
{
    match s {
        Statement::If(i) => {
            let c1 = ck_push(ck);
            match emit_expr(c1, i.condition) {
                Emitted::Text(cond) => {
                    let g = emit_block(c1, i.then_block@);
                    match g.out {
                        Emitted::Text(first) => {
                            let head = "if ("@ + cond + ") {\n"@ + first + "\n}\n"@;
                            let ei = emit_else_ifs(g.ck, i.else_if@);
                            match ei.out {
                                Emitted::Text(mid) => if i.else_block@.len() == 0 {
                                    Gen { out: Emitted::Text(head + mid), ck: ck_pop(ei.ck) }
                                } else {
                                    let eb = emit_block(ei.ck, i.else_block@);
                                    match eb.out {
                                        Emitted::Text(el) => Gen {
                                            out: Emitted::Text(
                                                head + mid + "else {\n"@ + el + "\n}\n"@,
                                            ),
                                            ck: ck_pop(eb.ck),
                                        },
                                        other => Gen { out: other, ck: eb.ck },
                                    }
                                },
                                other => Gen { out: other, ck: ei.ck },
                            }
                        },
                        other => Gen { out: other, ck: g.ck },
                    }
                },
                other => Gen { out: other, ck: c1 },
            }
        },
        _ => Gen { out: Emitted::Panics, ck },
    }
}

/// The `else if` branches, in order.
pub open spec fn emit_else_ifs(ck: CheckerView, eis: Seq<ElseIf>) -> Gen
    decreases eis, 1nat,
{
    if eis.len() == 0 {
        Gen { out: Emitted::Text(Seq::empty()), ck }
    } else {
        let g = emit_else_ifs(ck, eis.drop_last());
        match g.out {
            Emitted::Text(before) => match emit_expr(g.ck, eis.last().condition) {
                Emitted::Text(c) => {
                    let b = emit_block(g.ck, eis.last().block@);
                    match b.out {
                        Emitted::Text(bt) => Gen {
                            out: Emitted::Text(
                                before + "else if ("@ + c + ") {\n"@ + bt + "\n}\n"@,
                            ),
                            ck: b.ck,
                        },
                        other => Gen { out: other, ck: b.ck },
                    }
                },
                other => Gen { out: other, ck: g.ck },
            },
            _ => g,
        }
    }
}

/// A `for` statement as a C `while` or `for` loop, in a scope of its own; a
/// failure leaves the scope open. Any other statement panics.
pub open spec fn emit_for_stmt(ck: CheckerView, s: Statement) -> Gen
    decreases s, 1nat,
{
    match s {
        Statement::ForCondition { condition, body, .. } => {
            let c1 = ck_push(ck);
            match emit_expr(c1, condition) {
                Emitted::Text(cond) => {
                    let b = emit_block(c1, body@);
                    match b.out {
                        Emitted::Text(bt) => Gen {
                            out: Emitted::Text("while ("@ + cond + ") {\n"@ + bt + "\n}"@),
                            ck: ck_pop(b.ck),
                        },
                        other => Gen { out: other, ck: b.ck },
                    }
                },
                other => Gen { out: other, ck: c1 },
            }
        },
        Statement::ForCounter { init, condition, post, body, .. } => {
            let g = emit_stmt(ck_push(ck), *init);
            match g.out {
                Emitted::Text(it) => match emit_expr(g.ck, condition) {
                    Emitted::Text(cond) => match emit_expr(g.ck, post) {
                        Emitted::Text(p) => {
                            let b = emit_block(g.ck, body@);
                            match b.out {
                                Emitted::Text(bt) => Gen {
                                    out: Emitted::Text(
                                        "for ("@ + it + " "@ + cond + "; "@ + p + ") {\n"@ + bt
                                            + "\n}"@,
                                    ),
                                    ck: ck_pop(b.ck),
                                },
                                other => Gen { out: other, ck: b.ck },
                            }
                        },
                        other => Gen { out: other, ck: g.ck },
                    },
                    other => Gen { out: other, ck: g.ck },
                },
                other => Gen { out: other, ck: g.ck },
            }
        },
        Statement::ForRange { variable, iterable, body, span } => {
            let c1 = ck_push(ck);
            match range_bounds(c1, iterable) {
                Ok((st, en, cmp)) => {
                    let v = variable@;
                    let b = emit_block(spec_defined(c1, v, TyView::Int, BindingKind::Var, span), body@);
                    match b.out {
                        Emitted::Text(bt) => Gen {
                            out: Emitted::Text(
                                "for (int64_t "@ + v + " = "@ + st + "; "@ + v + " "@ + cmp + " "@
                                    + en + "; "@ + v + "++) {\n"@ + bt + "\n}"@,
                            ),
                            ck: ck_pop(b.ck),
                        },
                        other => Gen { out: other, ck: b.ck },
                    }
                },
                Err(other) => Gen { out: other, ck: c1 },
            }
        },
        _ => Gen { out: Emitted::Panics, ck },
    }
}

/// The C return type of a function: that of its declared return type, else
/// `int` for `main` and `void` for the others.
pub open spec fn return_text(name: Seq<char>, rt: Option<crate::parser::types::Type>) -> Seq<char> {
    match rt {
        Some(t) => spec_c_type(spec_resolve_type(t)),
        None => if name == "main"@ {
            "int"@
        } else {
            "void"@
        },
    }
}

/// A function definition, its parameters bound in a scope of their own; a
/// failure in the body leaves the scope open. Any other statement is
/// unexpected.
pub open spec fn emit_fun_stmt(ck: CheckerView, s: Statement) -> Gen
    decreases s, 1nat,
{
    match s {
        Statement::Fun { name, params, return_type, body, span } => {
            let b = emit_block(bind_params(ck_push(ck), params@, span), body@);
            match b.out {
                Emitted::Text(bt) => Gen {
                    out: Emitted::Text(
                        return_text(name@, return_type) + " "@ + name@ + (if params@.len() > 0 {
                            "("@ + join(param_texts(params@), ", "@) + ")"@
                        } else {
                            "(void)"@
                        }) + " {\n"@ + bt + "\n}\n"@,
                    ),
                    ck: ck_pop(b.ck),
                },
                other => Gen { out: other, ck: b.ck },
            }
        },
        _ => Gen { out: Emitted::Failed(unexpected_statement(s)), ck },
    }
}

/// A struct declaration as a C `typedef`. Any other statement is unexpected.
pub open spec fn emit_struct_stmt(ck: CheckerView, s: Statement) -> Gen
    decreases s, 1nat,
{
    match s {
        Statement::Struct { name, fields, span } => Gen {
            out: Emitted::Text(
                "typedef struct {\n"@ + join(field_texts(fields@), ";\n"@) + ";\n"@ + "} "@ + name@
                    + ";"@,
            ),
            ck: ck_pop(bind_params(ck_push(ck), fields@, span)),
        },
        _ => Gen { out: Emitted::Failed(unexpected_statement(s)), ck },
    }
}

/// The statements of a block in order, up to the first that fails.
pub open spec fn block_prefix(ck: CheckerView, body: Seq<Statement>) -> BlockRun
    decreases body, 1nat,
{
    if body.len() == 0 {
        BlockRun { lines: Seq::empty(), drops: Seq::empty(), ck, stop: None }
    } else {
        let r = block_prefix(ck, body.drop_last());
        if r.stop is Some {
            r
        } else {
            let s = body.last();
            let drops = match binding_of(s) {
                Some((name, value)) => if spec_infer(r.ck, value) is String {
                    r.drops.push(name)
                } else {
                    r.drops
                },
                None => r.drops,
            };
            let g = emit_stmt(r.ck, s);
            match g.out {
                Emitted::Text(t) => BlockRun {
                    lines: r.lines + indent(text_lines(t)),
                    drops,
                    ck: g.ck,
                    stop: None,
                },
                other => BlockRun { lines: r.lines, drops, ck: g.ck, stop: Some(other) },
            }
        }
    }
}

/// A block: the lines of its statements indented, then a `vio_str_drop` for
/// each string it bound, the last bound first; joined by line feeds.
pub open spec fn emit_block(ck: CheckerView, body: Seq<Statement>) -> Gen
    decreases body, 2nat,
{
    let r = block_prefix(ck, body);
    match r.stop {
        None => Gen { out: Emitted::Text(join(r.lines + drop_lines(r.drops), "\n"@)), ck: r.ck },
        Some(o) => Gen { out: o, ck: r.ck },
    }
}

/// A block that fails fails at its first failing statement: the statements
/// before it are all generated, and the block's outcome is that statement's.
pub proof fn law_block_stops_at_first_failure(ck: CheckerView, body: Seq<Statement>)
    requires
        block_prefix(ck, body).stop is Some,
    ensures
        exists|k: int|
            0 <= k < body.len() && (#[trigger] block_prefix(ck, body.take(k))).stop is None
                && emit_stmt(block_prefix(ck, body.take(k)).ck, body[k]).out == block_prefix(
                ck,
                body,
            ).stop->0,
        !(block_prefix(ck, body).stop->0 is Text),
    decreases body.len(),
{
    let r = block_prefix(ck, body.drop_last());
    if r.stop is Some {
        law_block_stops_at_first_failure(ck, body.drop_last());
        let k = choose|k: int|
            0 <= k < body.drop_last().len() && (#[trigger] block_prefix(
                ck,
                body.drop_last().take(k),
            )).stop is None && emit_stmt(
                block_prefix(ck, body.drop_last().take(k)).ck,
                body.drop_last()[k],
            ).out == r.stop->0;
        assert(body.drop_last().take(k) =~= body.take(k));
        assert(body.drop_last()[k] == body[k]);
        assert(block_prefix(ck, body.take(k)).stop is None);
    } else {
        let k = body.len() - 1;
        assert(body.take(k) =~= body.drop_last());
        assert(block_prefix(ck, body.take(k)).stop is None);
    }
}

/// The first pass over a program's declarations: the `#define` lines of its
/// constants, with constants and functions bound, up to the first failure.
pub struct HeaderRun {
    pub defines: Seq<Seq<char>>,
    pub ck: CheckerView,
    pub stop: Option<Emitted>,
}

/// The type a function declaration binds its name with.
pub open spec fn fun_type(params: Seq<FunParam>, rt: Option<crate::parser::types::Type>) -> TyView {
    TyView::Fn {
        params: Seq::new(params.len(), |i: int| spec_resolve_type(params[i].param_type)),
        ret: Box::new(
            match rt {
                Some(t) => spec_resolve_type(t),
                None => TyView::Unit,
            },
        ),
    }
}

pub open spec fn header_run(ck: CheckerView, decls: Seq<Statement>) -> HeaderRun
    decreases decls.len(),
{
    if decls.len() == 0 {
        HeaderRun { defines: Seq::empty(), ck, stop: None }
    } else {
        let r = header_run(ck, decls.drop_last());
        if r.stop is Some {
            r
        } else {
            match decls.last() {
                Statement::Const { name, value, span } => match emit_expr(r.ck, value) {
                    Emitted::Text(v) => HeaderRun {
                        defines: r.defines.push("#define "@ + name@ + " "@ + v),
                        ck: spec_defined(
                            r.ck,
                            name@,
                            spec_infer(r.ck, value),
                            BindingKind::Const,
                            span,
                        ),
                        stop: None,
                    },
                    other => HeaderRun { defines: r.defines, ck: r.ck, stop: Some(other) },
                },
                Statement::Fun { name, params, return_type, span, .. } => HeaderRun {
                    defines: r.defines,
                    ck: spec_defined(
                        r.ck,
                        name@,
                        fun_type(params@, return_type),
                        BindingKind::Var,
                        span,
                    ),
                    stop: None,
                },
                _ => r,
            }
        }
    }
}

/// The second pass over a program's declarations: `main` as `int main(void)`
/// around its block, constants skipped, the rest as statements; up to the
/// first failure.
pub struct BodyRun {
    pub lines: Seq<Seq<char>>,
    pub ck: CheckerView,
    pub stop: Option<Emitted>,
}

/// Whether a declaration is the function `main`.
pub open spec fn is_main_fun(s: Statement) -> bool {
    s is Fun && s->Fun_name@ == "main"@
}

/// One declaration of the second pass.
pub open spec fn body_step(r: BodyRun, s: Statement) -> BodyRun {
    if r.stop is Some {
        r
    } else if s is Const {
        r
    } else if is_main_fun(s) {
        let b = emit_block(r.ck, s->Fun_body@);
        match b.out {
            Emitted::Text(bt) => BodyRun {
                lines: r.lines + seq!["int main(void) {"@, bt, "}"@],
                ck: b.ck,
                stop: None,
            },
            other => BodyRun { lines: r.lines, ck: b.ck, stop: Some(other) },
        }
    } else {
        let g = emit_stmt(r.ck, s);
        match g.out {
            Emitted::Text(t) => BodyRun { lines: r.lines + text_lines(t), ck: g.ck, stop: None },
            other => BodyRun { lines: r.lines, ck: g.ck, stop: Some(other) },
        }
    }
}

/// The second pass over the declarations, in order.
#[verifier::opaque]
pub open spec fn body_run(ck: CheckerView, decls: Seq<Statement>) -> BodyRun
    decreases decls.len(),
{
    if decls.len() == 0 {
        BodyRun { lines: Seq::empty(), ck, stop: None }
    } else {
        body_step(body_run(ck, decls.drop_last()), decls.last())
    }
}

/// The first lines of the C file: the runtime's header, then the `#define`
/// lines followed by an empty line when there are any.
pub open spec fn preamble(defines: Seq<Seq<char>>) -> Seq<Seq<char>> {
    seq!["#include \"vio_runtime.h\"\n"@] + if defines.len() > 0 {
        defines.push("\n"@)
    } else {
        Seq::empty()
    }
}

/// The C file for a program: struct declarations recorded, one scope opened
/// for the whole file, the preamble, the declarations, and the top-level
/// statements as `main`; the lines joined by line feeds, with one at the end.
pub open spec fn emit_prog(ck: CheckerView, decls: Seq<Statement>, main: Seq<Statement>) -> Gen {
    let h = header_run(ck_push(spec_collect(ck, decls)), decls);
    match h.stop {
        Some(o) => Gen { out: o, ck: h.ck },
        None => {
            let b = body_run(h.ck, decls);
            match b.stop {
                Some(o) => Gen { out: o, ck: b.ck },
                None => if main.len() == 0 {
                    Gen {
                        out: Emitted::Text(join(preamble(h.defines) + b.lines, "\n"@) + "\n"@),
                        ck: b.ck,
                    }
                } else {
                    let m = emit_block(b.ck, main);
                    match m.out {
                        Emitted::Text(mt) => Gen {
                            out: Emitted::Text(
                                join(
                                    preamble(h.defines) + b.lines + seq![
                                        "int main(void) {"@,
                                        mt,
                                        "}"@,
                                    ],
                                    "\n"@,
                                ) + "\n"@,
                            ),
                            ck: m.ck,
                        },
                        other => Gen { out: other, ck: m.ck },
                    }
                },
            }
        },
    }
}

proof fn lemma_join_starts_with(parts: Seq<Seq<char>>, sep: Seq<char>)
    requires
        parts.len() >= 1,
    ensures
        parts[0].is_prefix_of(join(parts, sep)),
    decreases parts.len(),
{
    if parts.len() >= 2 {
        lemma_join_starts_with(parts.drop_last(), sep);
        let j = join(parts.drop_last(), sep);
        assert((j + sep + parts.last()).subrange(0, parts[0].len() as int) =~= j.subrange(
            0,
            parts[0].len() as int,
        ));
    }
}

pub(crate) proof fn lemma_header_stop_is_no_text(ck: CheckerView, decls: Seq<Statement>)
    ensures
        header_run(ck, decls).stop matches Some(o) ==> !(o is Text),
    decreases decls.len(),
{
    if decls.len() > 0 {
        lemma_header_stop_is_no_text(ck, decls.drop_last());
    }
}

pub(crate) proof fn lemma_body_stop_is_no_text(ck: CheckerView, decls: Seq<Statement>)
    ensures
        body_run(ck, decls).stop matches Some(o) ==> !(o is Text),
    decreases decls.len(),
{
    reveal(body_run);
    if decls.len() > 0 {
        lemma_body_stop_is_no_text(ck, decls.drop_last());
    }
}

/// The C file for a program starts with the line that includes the runtime's
/// header and ends with a line feed.
pub proof fn law_file_framing(ck: CheckerView, decls: Seq<Statement>, main: Seq<Statement>)
    ensures
        emit_prog(ck, decls, main).out matches Emitted::Text(t) ==> {
            &&& "#include \"vio_runtime.h\"\n"@.is_prefix_of(t)
            &&& t.len() > 0
            &&& t.last() == '\n'
        },
{
    reveal_strlit("\n");
    let h = header_run(ck_push(spec_collect(ck, decls)), decls);
    let b = body_run(h.ck, decls);
    let inc = "#include \"vio_runtime.h\"\n"@;
    lemma_header_stop_is_no_text(ck_push(spec_collect(ck, decls)), decls);
    lemma_body_stop_is_no_text(h.ck, decls);
    if h.stop is None && b.stop is None {
        let parts = if main.len() == 0 {
            preamble(h.defines) + b.lines
        } else {
            preamble(h.defines) + b.lines + seq![
                "int main(void) {"@,
                emit_block(b.ck, main).out->Text_0,
                "}"@,
            ]
        };
        assert(parts[0] == inc);
        lemma_join_starts_with(parts, "\n"@);
        let j = join(parts, "\n"@);
        let t = j + "\n"@;
        assert(t.subrange(0, inc.len() as int) =~= j.subrange(0, inc.len() as int));
        assert(inc.is_prefix_of(t));
        assert(t.last() == '\n');
        if emit_prog(ck, decls, main).out is Text {
            assert(emit_prog(ck, decls, main).out->Text_0 == t);
        }
    }
}

} // verus!
