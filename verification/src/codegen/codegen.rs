//! Generating C code for a parsed program.
use vstd::prelude::*;
use vstd::string::StringExecFns;
use crate::codegen::error::{CodegenError};
use crate::codegen::spec::{
    emit_args, emit_expr, emit_fields, expression_debug, not_an_operator, spec_c_type,
    spec_operator, string_literal_text, Emitted,
};
use crate::codegen::statements::{
    block_prefix, body_run, drop_lines, emit_block, emit_else_ifs, emit_for_stmt, emit_fun_stmt,
    emit_prog, emit_stmt, emit_struct_stmt, field_texts, fun_type, header_run, indent,
    param_texts, preamble, statement_debug, binding_of, return_text, emit_if, body_step, BlockRun, BodyRun, Gen, HeaderRun,
};
use crate::parser::statement::{ElseIf, FunParam};
use crate::lexer::span::Span;
use crate::codegen::statements::bind_params;
use crate::parser::expression::RangeKind;
use crate::typechecker::error::BindingKind;
use crate::typechecker::checker::{ck_pop, ck_push};
use crate::text::{join, join_with, lines_of, text_lines, views};
use crate::lexer::token::Token;
use crate::parser::statement::Statement;
use crate::parser::expression::{Expression, StructLiteralField};
use crate::text::{byte_len, push_escaped, push_int, push_nat, push_str};
use crate::parser::program::Program;
use crate::typechecker::checker::{Checker, CheckerView, spec_infer, spec_resolve_type};
use crate::typechecker::types::{Ty, TyView};

verus! {

/// How `std`'s `Debug` formatting writes an expression.
#[verifier::external_body]
fn debug_expression(e: &Expression) -> (r: String)
    ensures
        r@ == expression_debug(*e),
{
    format!("{:?}", e)
}

/// How `std`'s `Debug` formatting writes a statement.
#[verifier::external_body]
fn debug_statement(s: &Statement) -> (r: String)
    ensures
        r@ == statement_debug(*s),
{
    format!("{:?}", s)
}

/// The result of generating code agrees with the outcome the specification gives.
pub open spec fn agrees(r: Result<String, CodegenError>, out: Emitted) -> bool {
    match out {
        Emitted::Text(t) => r is Ok && r->Ok_0@ == t,
        Emitted::Failed(e) => r is Err && r->Err_0@ == e,
        Emitted::Panics => false,
    }
}

proof fn lemma_args_stop(ck: CheckerView, es: Seq<Expression>, j: int, k: int)
    requires
        0 <= j <= k <= es.len(),
        !(emit_args(ck, es.take(j)) is Text),
    ensures
        emit_args(ck, es.take(k)) == emit_args(ck, es.take(j)),
    decreases k - j,
{
    if k > j {
        lemma_args_stop(ck, es, j, k - 1);
        assert(es.take(k).drop_last() =~= es.take(k - 1));
    }
}

proof fn lemma_fields_stop(ck: CheckerView, fs: Seq<StructLiteralField>, j: int, k: int)
    requires
        0 <= j <= k <= fs.len(),
        !(emit_fields(ck, fs.take(j)) is Text),
    ensures
        emit_fields(ck, fs.take(k)) == emit_fields(ck, fs.take(j)),
    decreases k - j,
{
    if k > j {
        lemma_fields_stop(ck, fs, j, k - 1);
        assert(fs.take(k).drop_last() =~= fs.take(k - 1));
    }
}

proof fn lemma_fields_never_fail(ck: CheckerView, fs: Seq<StructLiteralField>)
    ensures
        emit_fields(ck, fs) is Text || emit_fields(ck, fs) is Panics,
    decreases fs.len(),
{
    if fs.len() > 0 {
        lemma_fields_never_fail(ck, fs.drop_last());
    }
}

proof fn lemma_block_stop(ck: CheckerView, body: Seq<Statement>, j: int, k: int)
    requires
        0 <= j <= k <= body.len(),
        block_prefix(ck, body.take(j)).stop is Some,
    ensures
        block_prefix(ck, body.take(k)) == block_prefix(ck, body.take(j)),
    decreases k - j,
{
    if k > j {
        lemma_block_stop(ck, body, j, k - 1);
        assert(body.take(k).drop_last() =~= body.take(k - 1));
    }
}

proof fn lemma_else_ifs_stop(ck: CheckerView, eis: Seq<ElseIf>, j: int, k: int)
    requires
        0 <= j <= k <= eis.len(),
        !(emit_else_ifs(ck, eis.take(j)).out is Text),
    ensures
        emit_else_ifs(ck, eis.take(k)) == emit_else_ifs(ck, eis.take(j)),
    decreases k - j,
{
    if k > j {
        lemma_else_ifs_stop(ck, eis, j, k - 1);
        assert(eis.take(k).drop_last() =~= eis.take(k - 1));
    }
}

proof fn lemma_header_stop(ck: CheckerView, decls: Seq<Statement>, j: int, k: int)
    requires
        0 <= j <= k <= decls.len(),
        header_run(ck, decls.take(j)).stop is Some,
    ensures
        header_run(ck, decls.take(k)) == header_run(ck, decls.take(j)),
    decreases k - j,
{
    if k > j {
        lemma_header_stop(ck, decls, j, k - 1);
        assert(decls.take(k).drop_last() =~= decls.take(k - 1));
    }
}

proof fn lemma_body_step(ck: CheckerView, decls: Seq<Statement>, j: int)
    requires
        0 <= j < decls.len(),
    ensures
        body_run(ck, decls.take(j + 1)) == body_step(body_run(ck, decls.take(j)), decls[j]),
{
    reveal(body_run);
    assert(decls.take(j + 1).drop_last() =~= decls.take(j));
}

proof fn lemma_body_start(ck: CheckerView, decls: Seq<Statement>)
    ensures
        body_run(ck, decls.take(0)) == (BodyRun { lines: Seq::empty(), ck, stop: None }),
{
    reveal(body_run);
}

proof fn lemma_body_stop(ck: CheckerView, decls: Seq<Statement>, j: int, k: int)
    requires
        0 <= j <= k <= decls.len(),
        body_run(ck, decls.take(j)).stop is Some,
    ensures
        body_run(ck, decls.take(k)) == body_run(ck, decls.take(j)),
    decreases k - j,
{
    reveal(body_run);
    if k > j {
        lemma_body_stop(ck, decls, j, k - 1);
        assert(decls.take(k).drop_last() =~= decls.take(k - 1));
    }
}

/// Generates C code for a program, using the checker for the names in scope
/// and the types of expressions.
pub struct Codegen {
    checker: Checker,
}

impl View for Codegen {
    type V = CheckerView;

    closed spec fn view(&self) -> CheckerView {
        self.checker@
    }
}

impl Codegen {
    /// A generator whose scopes hold the built-in functions.
    pub fn new() -> (c: Codegen)
        ensures
            c@ == crate::typechecker::checker::spec_defined(
                crate::typechecker::checker::spec_defined(
                    crate::typechecker::checker::spec_defined(
                        CheckerView { env: Seq::empty(), structs: Seq::empty() },
                        "print"@,
                        crate::typechecker::checker::print_ty(),
                        crate::typechecker::error::BindingKind::Const,
                        crate::lexer::span::zero_span(),
                    ),
                    "println"@,
                    crate::typechecker::checker::print_ty(),
                    crate::typechecker::error::BindingKind::Const,
                    crate::lexer::span::zero_span(),
                ),
                "scanln"@,
                crate::typechecker::checker::scanln_ty(),
                crate::typechecker::error::BindingKind::Const,
                crate::lexer::span::zero_span(),
            ),
    {
        let mut checker = Checker::default();
        checker.define_builtins();
        assert(checker@ == crate::typechecker::checker::spec_defined(
            crate::typechecker::checker::spec_defined(
                crate::typechecker::checker::spec_defined(
                    CheckerView { env: Seq::empty(), structs: Seq::empty() },
                    "print"@,
                    crate::typechecker::checker::print_ty(),
                    crate::typechecker::error::BindingKind::Const,
                    crate::lexer::span::zero_span(),
                ),
                "println"@,
                crate::typechecker::checker::print_ty(),
                crate::typechecker::error::BindingKind::Const,
                crate::lexer::span::zero_span(),
            ),
            "scanln"@,
            crate::typechecker::checker::scanln_ty(),
            crate::typechecker::error::BindingKind::Const,
            crate::lexer::span::zero_span(),
        ));
        Codegen { checker }
    }

    /// The C type for a type: `int64_t`, `double`, `bool`, `VioString`, the
    /// struct's name, `void`, or `unknown`. A function type has none.
    pub fn c_type(&mut self, ty: &Ty) -> (r: String)
        requires
            !(ty@ is Fn),
        ensures
            r@ == spec_c_type(ty@),
            final(self)@ == old(self)@,
    {
        match ty {
            Ty::Int => String::from_str("int64_t"),
            Ty::Float => String::from_str("double"),
            Ty::Bool => String::from_str("bool"),
            Ty::String => String::from_str("VioString"),
            Ty::Struct(s) => s.clone(),
            Ty::Unit => String::from_str("void"),
            Ty::Fn { .. } => vstd::pervasive::unreached(),
            Ty::Unknown => String::from_str("unknown"),
        }
    }

    /// The C operator for an operator token.
    fn correlate_operator(&mut self, op: &Token) -> (r: Result<String, CodegenError>)
        ensures
            final(self)@ == old(self)@,
            match spec_operator(*op) {
                Some(o) => r is Ok && r->Ok_0@ == o,
                None => r is Err && r->Err_0@ == not_an_operator(),
            },
    {
        let s = match op {
            Token::Assign => "=",
            Token::Equals => "==",
            Token::NotEquals => "!=",
            Token::Less => "<",
            Token::Greater => ">",
            Token::LessOrEquals => "<=",
            Token::GreaterOrEquals => ">=",
            Token::Add => "+",
            Token::Subtract => "-",
            Token::Multiply => "*",
            Token::Divide => "/",
            Token::Modulus => "%",
            Token::Increment => "++",
            Token::Decrement => "--",
            Token::AddAndAssign => "+=",
            Token::SubAndAssign => "-=",
            Token::MulAndAssign => "*=",
            Token::DivAndAssign => "/=",
            Token::ModAndAssign => "%=",
            Token::BitAnd => "&",
            Token::BitOr => "|",
            Token::BitXOR => "^",
            Token::BitNot => "~",
            _ => {
                return Err(CodegenError::Unexpected(String::from_str("Not an operator")));
            },
        };
        Ok(String::from_str(s))
    }

    /// The C code for an expression: literals as C literals (strings as
    /// `VioString`s), operators as C operators with infix operations in
    /// parentheses, `+` on two strings as `vio_str_concat`, `**` as `pow`,
    /// `print`/`println` of one argument as the runtime's function for the
    /// argument's type, and calls and fields as in C. Other expressions are
    /// unsupported.
    pub fn emit_expression(&mut self, expr: &Expression) -> (r: Result<String, CodegenError>)
        requires
            !(emit_expr(old(self)@, *expr) is Panics),
        ensures
            final(self)@ == old(self)@,
            agrees(r, emit_expr(old(self)@, *expr)),
        decreases expr, 0nat,
    {
        let ghost ck = self@;
        match expr {
            Expression::IntLiteral { val, .. } => {
                let mut out = String::new();
                push_int(&mut out, *val);
                Ok(out)
            },
            Expression::FloatLiteral { val, .. } => Ok(val.clone()),
            Expression::BoolLiteral { val, .. } => {
                if *val {
                    Ok(String::from_str("true"))
                } else {
                    Ok(String::from_str("false"))
                }
            },
            Expression::StringLiteral { val, .. } => {
                let mut out = String::new();
                push_str(&mut out, "vio_str_from_literal(\"");
                push_escaped(&mut out, val);
                push_str(&mut out, "\", ");
                let n = byte_len(val);
                push_nat(&mut out, n);
                push_str(&mut out, ")");
                assert(out@ =~= string_literal_text(val@));
                Ok(out)
            },
            Expression::StructLiteral { name, fields, .. } => {
                proof {
                    lemma_fields_never_fail(ck, fields@);
                }
                let t = self.emit_fields(fields);
                let mut out = String::new();
                push_str(&mut out, "(");
                push_str(&mut out, name.as_str());
                push_str(&mut out, "){ .");
                push_str(&mut out, t.as_str());
                push_str(&mut out, " }");
                assert(out@ =~= "("@ + name@ + "){ ."@ + t@ + " }"@);
                Ok(out)
            },
            Expression::Prefix { operator, right, .. } => {
                let o = self.correlate_operator(operator)?;
                let r = self.emit_expression(right)?;
                let mut out = o;
                push_str(&mut out, r.as_str());
                Ok(out)
            },
            Expression::Infix { left, operator, right, .. } => {
                let is_add = matches!(operator, Token::Add);
                if is_add && matches!(self.checker.infer(left), Ty::String) && matches!(
                    self.checker.infer(right),
                    Ty::String
                ) {
                    let l = self.emit_expression(left)?;
                    let r = self.emit_expression(right)?;
                    let mut out = String::new();
                    push_str(&mut out, "vio_str_concat(");
                    push_str(&mut out, l.as_str());
                    push_str(&mut out, ", ");
                    push_str(&mut out, r.as_str());
                    push_str(&mut out, ")");
                    assert(out@ =~= "vio_str_concat("@ + l@ + ", "@ + r@ + ")"@);
                    return Ok(out);
                }
                if matches!(operator, Token::Power) {
                    let l = self.emit_expression(left)?;
                    let r = self.emit_expression(right)?;
                    let mut out = String::new();
                    push_str(&mut out, "pow(");
                    push_str(&mut out, l.as_str());
                    push_str(&mut out, ", ");
                    push_str(&mut out, r.as_str());
                    push_str(&mut out, ")");
                    assert(out@ =~= "pow("@ + l@ + ", "@ + r@ + ")"@);
                    return Ok(out);
                }
                let l = self.emit_expression(left)?;
                let o = self.correlate_operator(operator)?;
                let r = self.emit_expression(right)?;
                let mut out = String::new();
                push_str(&mut out, "(");
                push_str(&mut out, l.as_str());
                push_str(&mut out, " ");
                push_str(&mut out, o.as_str());
                push_str(&mut out, " ");
                push_str(&mut out, r.as_str());
                push_str(&mut out, ")");
                assert(out@ =~= "("@ + l@ + " "@ + o@ + " "@ + r@ + ")"@);
                Ok(out)
            },
            Expression::Postfix { left, operator, .. } => {
                let l = self.emit_expression(left)?;
                let o = self.correlate_operator(operator)?;
                let mut out = l;
                push_str(&mut out, o.as_str());
                Ok(out)
            },
            Expression::Identifier { name, .. } => Ok(name.clone()),
            Expression::Call { function, args, .. } => {
                if let Expression::Identifier { name, .. } = &**function {
                    let is_print = *name == String::from_str("print") || *name == String::from_str(
                        "println",
                    );
                    if is_print && args.len() == 1 {
                        let arg_ty = self.checker.infer(&args[0]);
                        let suffix = match arg_ty {
                            Ty::Int => "int",
                            Ty::Float => "float",
                            Ty::Bool => "bool",
                            Ty::String => "string",
                            _ => {
                                return Err(
                                    CodegenError::Unsupported(
                                        String::from_str("print for this type"),
                                    ),
                                );
                            },
                        };
                        let a = self.emit_expression(&args[0])?;
                        let mut out = String::new();
                        push_str(&mut out, "vio_");
                        push_str(&mut out, name.as_str());
                        push_str(&mut out, "_");
                        push_str(&mut out, suffix);
                        push_str(&mut out, "(");
                        push_str(&mut out, a.as_str());
                        push_str(&mut out, ")");
                        assert(out@ =~= "vio_"@ + name@ + "_"@ + suffix@ + "("@ + a@ + ")"@);
                        return Ok(out);
                    }
                    if *name == String::from_str("scanln") && args.len() == 0 {
                        let mut out = String::new();
                        push_str(&mut out, "vio_");
                        push_str(&mut out, name.as_str());
                        push_str(&mut out, "()");
                        assert(out@ =~= "vio_"@ + name@ + "()"@);
                        return Ok(out);
                    }
                }
                let f = self.emit_expression(function)?;
                let a = self.emit_args(args)?;
                let mut out = f;
                push_str(&mut out, "(");
                push_str(&mut out, a.as_str());
                push_str(&mut out, ")");
                Ok(out)
            },
            Expression::Field { object, name, .. } => {
                let o = self.emit_expression(object)?;
                let mut out = o;
                push_str(&mut out, ".");
                push_str(&mut out, name.as_str());
                Ok(out)
            },
            _ => {
                let mut msg = String::from_str("this expression: ");
                let d = debug_expression(expr);
                push_str(&mut msg, d.as_str());
                Err(CodegenError::Unsupported(msg))
            },
        }
    }

    /// The C code for call arguments separated by `, `.
    fn emit_args(&mut self, args: &Vec<Expression>) -> (r: Result<String, CodegenError>)
        requires
            !(emit_args(old(self)@, args@) is Panics),
        ensures
            final(self)@ == old(self)@,
            agrees(r, emit_args(old(self)@, args@)),
        decreases args, 1nat,
    {
        let ghost ck = self@;
        let mut out = String::new();
        let mut i: usize = 0;
        assert(args@.take(0) =~= Seq::<Expression>::empty());
        while i < args.len()
            invariant
                i <= args@.len(),
                self@ == ck,
                ck == old(self)@,
                emit_args(ck, args@.take(i as int)) == Emitted::Text(out@),
                !(emit_args(ck, args@) is Panics),
            decreases args@.len() - i,
        {
            assert(args@.take(i + 1).drop_last() =~= args@.take(i as int));
            assert(args@.take(i + 1).last() == args@[i as int]);
            proof {
                if emit_expr(ck, args@[i as int]) is Panics {
                    lemma_args_stop(ck, args@, i + 1, args@.len() as int);
                    assert(args@.take(args@.len() as int) =~= args@);
                }
                assert(decreases_to!(args => args@));
                assert(decreases_to!(args@ => args@[i as int]));
            }
            let a = match self.emit_expression(&args[i]) {
                Ok(a) => a,
                Err(e) => {
                    proof {
                        lemma_args_stop(ck, args@, i + 1, args@.len() as int);
                        assert(args@.take(args@.len() as int) =~= args@);
                    }
                    return Err(e);
                },
            };
            if i > 0 {
                push_str(&mut out, ", ");
            }
            push_str(&mut out, a.as_str());
            i = i + 1;
            assert(out@ =~= (if i == 1 {
                a@
            } else {
                out@.subrange(0, out@.len() - a@.len() as int) + a@
            }));
        }
        assert(args@.take(args@.len() as int) =~= args@);
        Ok(out)
    }

    /// The designated initialisers for struct-literal fields, separated by `, .`.
    fn emit_fields(&mut self, fields: &Vec<StructLiteralField>) -> (r: String)
        requires
            emit_fields(old(self)@, fields@) is Text,
        ensures
            final(self)@ == old(self)@,
            emit_fields(old(self)@, fields@) == Emitted::Text(r@),
        decreases fields, 1nat,
    {
        let ghost ck = self@;
        let mut out = String::new();
        let mut i: usize = 0;
        assert(fields@.take(0) =~= Seq::<StructLiteralField>::empty());
        while i < fields.len()
            invariant
                i <= fields@.len(),
                self@ == ck,
                ck == old(self)@,
                emit_fields(ck, fields@.take(i as int)) == Emitted::Text(out@),
                emit_fields(ck, fields@) is Text,
            decreases fields@.len() - i,
        {
            assert(fields@.take(i + 1).drop_last() =~= fields@.take(i as int));
            assert(fields@.take(i + 1).last() == fields@[i as int]);
            proof {
                if !(emit_expr(ck, *fields@[i as int].field_val) is Text) {
                    lemma_fields_stop(ck, fields@, i + 1, fields@.len() as int);
                    assert(fields@.take(fields@.len() as int) =~= fields@);
                }
                assert(decreases_to!(fields => fields@));
                assert(decreases_to!(fields@ => fields@[i as int]));
            }
            let v = self.emit_expression(&fields[i].field_val).unwrap();
            let ghost before = out@;
            if i > 0 {
                push_str(&mut out, ", .");
            }
            push_str(&mut out, fields[i].field_name.as_str());
            push_str(&mut out, " = ");
            push_str(&mut out, v.as_str());
            assert(out@ =~= (if i == 0 {
                fields@[i as int].field_name@ + " = "@ + v@
            } else {
                before + ", ."@ + (fields@[i as int].field_name@ + " = "@ + v@)
            }));
            i = i + 1;
        }
        assert(fields@.take(fields@.len() as int) =~= fields@);
        out
    }
}

/// Appends each line of `text`.
fn push_lines(lines: &mut Vec<String>, text: &String)
    ensures
        views(final(lines)@) == views(old(lines)@) + text_lines(text@),
{
    let ls = lines_of(text);
    let ghost lines0 = views(lines@);
    let mut k: usize = 0;
    while k < ls.len()
        invariant
            k <= ls@.len(),
            views(lines@) == lines0 + views(ls@).take(k as int),
            lines0 == views(old(lines)@),
            views(ls@) == text_lines(text@),
        decreases ls@.len() - k,
    {
        let line = ls[k].clone();
        let ghost before = views(lines@);
        lines.push(line);
        assert(views(lines@) =~= before.push(line@));
        k = k + 1;
        assert(views(ls@).take(k as int) =~= views(ls@).take(k - 1).push(line@));
    }
    assert(views(ls@).take(ls@.len() as int) =~= views(ls@));
}

/// Appends each line of `text`, indented by four spaces.
fn push_indented(lines: &mut Vec<String>, text: &String)
    ensures
        views(final(lines)@) == views(old(lines)@) + indent(text_lines(text@)),
{
    let ls = lines_of(text);
    let ghost lines0 = views(lines@);
    let mut k: usize = 0;
    while k < ls.len()
        invariant
            k <= ls@.len(),
            views(lines@) == lines0 + indent(views(ls@)).take(k as int),
            lines0 == views(old(lines)@),
            views(ls@) == text_lines(text@),
        decreases ls@.len() - k,
    {
        let mut line = String::from_str("    ");
        push_str(&mut line, ls[k].as_str());
        let ghost before = views(lines@);
        lines.push(line);
        assert(views(lines@) =~= before.push(line@));
        k = k + 1;
        assert(indent(views(ls@)).take(k as int) =~= indent(views(ls@)).take(k - 1).push(line@));
    }
    assert(indent(views(ls@)).take(ls@.len() as int) =~= indent(views(ls@)));
}

/// Appends a `vio_str_drop` line for each name, the last one first.
fn push_drops(lines: &mut Vec<String>, names: &Vec<String>)
    ensures
        views(final(lines)@) == views(old(lines)@) + drop_lines(views(names@)),
{
    let ghost lines1 = views(lines@);
    let n = names.len();
    let mut k: usize = 0;
    while k < n
        invariant
            k <= n,
            n == names@.len(),
            lines1 == views(old(lines)@),
            views(lines@) == lines1 + drop_lines(views(names@)).take(k as int),
        decreases n - k,
    {
        let mut line = String::from_str("    vio_str_drop(");
        push_str(&mut line, names[n - 1 - k].as_str());
        push_str(&mut line, ");");
        let ghost before = views(lines@);
        lines.push(line);
        assert(views(lines@) =~= before.push(line@));
        k = k + 1;
        assert(drop_lines(views(names@)).take(k as int) =~= drop_lines(views(names@)).take(k - 1).push(
            line@,
        ));
    }
    assert(drop_lines(views(names@)).take(n as int) =~= drop_lines(views(names@)));
}

impl Codegen {
    /// Notes the name of a binding whose value is a string.
    fn note_string_binding(&self, s: &Statement, vars: &mut Vec<String>)
        ensures
            views(final(vars)@) == (match binding_of(*s) {
                Some((name, value)) => if spec_infer(self@, value) is String {
                    views(old(vars)@).push(name)
                } else {
                    views(old(vars)@)
                },
                None => views(old(vars)@),
            }),
    {
        match s {
            Statement::Let { name, value, .. } | Statement::Const { name, value, .. }
            | Statement::Var { name, value, .. } => {
                let ty = self.checker.infer(value);
                if matches!(ty, Ty::String) {
                    let ghost before = views(vars@);
                    vars.push(name.clone());
                    assert(views(vars@) =~= before.push(name@));
                }
            },
            _ => {},
        }
    }

    fn push_scope(&mut self)
        ensures
            final(self)@ == ck_push(old(self)@),
    {
        self.checker.env.push();
    }

    fn pop_scope(&mut self)
        ensures
            final(self)@ == ck_pop(old(self)@),
    {
        self.checker.env.pop();
    }

    /// The C code for a statement: a binding as a C declaration, `if` with
    /// its branches, `return`, an expression followed by `;`, loops, function
    /// definitions and struct declarations.
    pub fn emit_statement(&mut self, stmt: &Statement) -> (r: Result<String, CodegenError>)
        requires
            !(emit_stmt(old(self)@, *stmt).out is Panics),
        ensures
            agrees(r, emit_stmt(old(self)@, *stmt).out),
            final(self)@ == emit_stmt(old(self)@, *stmt).ck,
        decreases stmt, 2nat,
    {
        match stmt {
            Statement::Let { name, value, span } | Statement::Var { name, value, span } => {
                self.emit_binding(name, value, *span, BindingKind::Var)
            },
            Statement::Const { name, value, span } => {
                self.emit_binding(name, value, *span, BindingKind::Const)
            },
            Statement::If(_) => self.emit_if(stmt),
            Statement::Return { value, .. } => {
                let mut res = String::from_str("return");
                if let Some(expr) = value {
                    let v = self.emit_expression(expr)?;
                    push_str(&mut res, " ");
                    push_str(&mut res, v.as_str());
                    push_str(&mut res, ";");
                    proof {
                        reveal_strlit("return");
                        reveal_strlit(" ");
                        reveal_strlit("return ");
                    }
                    assert(res@ =~= "return "@ + v@ + ";"@);
                    return Ok(res);
                }
                push_str(&mut res, ";");
                proof {
                    reveal_strlit("return");
                    reveal_strlit(";");
                    reveal_strlit("return;");
                }
                assert(res@ =~= "return;"@);
                Ok(res)
            },
            Statement::Expression { expression, .. } => {
                let mut res = self.emit_expression(expression)?;
                push_str(&mut res, ";");
                Ok(res)
            },
            Statement::ForCondition { .. } | Statement::ForCounter { .. }
            | Statement::ForRange { .. } => self.emit_for(stmt),
            Statement::Fun { .. } => self.emit_function(stmt),
            Statement::Struct { .. } => self.emit_struct(stmt),
        }
    }

    /// A binding as `ctype name = value;`, the name then bound with the
    /// value's type.
    fn emit_binding(&mut self, name: &String, value: &Expression, span: Span, kind: BindingKind) -> (r:
        Result<String, CodegenError>)
        requires
            !(crate::codegen::statements::emit_binding(old(self)@, name@, *value, span, kind).out is Panics),
        ensures
            agrees(r, crate::codegen::statements::emit_binding(old(self)@, name@, *value, span, kind).out),
            final(self)@ == crate::codegen::statements::emit_binding(old(self)@, name@, *value, span, kind).ck,
    {
        let val_str = self.emit_expression(value)?;
        let ty = self.checker.infer(value);
        self.checker.defined(name.clone(), ty.duplicate(), kind, span);
        let mut res = self.c_type(&ty);
        push_str(&mut res, " ");
        push_str(&mut res, name.as_str());
        push_str(&mut res, " = ");
        push_str(&mut res, val_str.as_str());
        push_str(&mut res, ";");
        Ok(res)
    }

    /// An `if` statement with its branches, in one scope of its own.
    fn emit_if(&mut self, stmt: &Statement) -> (r: Result<String, CodegenError>)
        requires
            !(emit_if(old(self)@, *stmt).out is Panics),
        ensures
            agrees(r, emit_if(old(self)@, *stmt).out),
            final(self)@ == emit_if(old(self)@, *stmt).ck,
        decreases stmt, 1nat,
    {
        match stmt {
            Statement::If(i) => {
                self.push_scope();
                let cond = self.emit_expression(&i.condition)?;
                proof {
                    assert(decreases_to!(*stmt => i.then_block@));
                }
                let first = self.emit_block(i.then_block.as_slice())?;
                let mut res = String::new();
                push_str(&mut res, "if (");
                push_str(&mut res, cond.as_str());
                push_str(&mut res, ") {\n");
                push_str(&mut res, first.as_str());
                push_str(&mut res, "\n}\n");
                proof {
                    assert(decreases_to!(*stmt => i.else_if@));
                }
                let mid = self.emit_else_ifs(&i.else_if)?;
                push_str(&mut res, mid.as_str());
                if i.else_block.len() > 0 {
                    proof {
                        assert(decreases_to!(*stmt => i.else_block@));
                    }
                    let el = self.emit_block(i.else_block.as_slice())?;
                    push_str(&mut res, "else {\n");
                    push_str(&mut res, el.as_str());
                    push_str(&mut res, "\n}\n");
                }
                self.pop_scope();
                Ok(res)
            },
            _ => Err(CodegenError::Unexpected(debug_statement(stmt))),
        }
    }

    /// The `else if` branches, in order.
    fn emit_else_ifs(&mut self, eis: &Vec<ElseIf>) -> (r: Result<String, CodegenError>)
        requires
            !(emit_else_ifs(old(self)@, eis@).out is Panics),
        ensures
            agrees(r, emit_else_ifs(old(self)@, eis@).out),
            final(self)@ == emit_else_ifs(old(self)@, eis@).ck,
        decreases eis@, 1nat,
    {
        let ghost ck0 = self@;
        let mut out = String::new();
        let mut k: usize = 0;
        assert(eis@.take(0) =~= Seq::<ElseIf>::empty());
        while k < eis.len()
            invariant
                k <= eis@.len(),
                ck0 == old(self)@,
                emit_else_ifs(ck0, eis@.take(k as int)) == (Gen { out: Emitted::Text(out@), ck: self@ }),
                !(emit_else_ifs(ck0, eis@).out is Panics),
            decreases eis@.len() - k,
        {
            let ghost before = out@;
            let ghost c = self@;
            assert(eis@.take(k + 1).drop_last() =~= eis@.take(k as int));
            assert(eis@.take(k + 1).last() == eis@[k as int]);
            assert(eis@.take(eis@.len() as int) =~= eis@);
            proof {
                if emit_expr(c, eis@[k as int].condition) is Panics {
                    lemma_else_ifs_stop(ck0, eis@, k + 1, eis@.len() as int);
                }
            }
            let cond = match self.emit_expression(&eis[k].condition) {
                Ok(x) => x,
                Err(e) => {
                    proof {
                        lemma_else_ifs_stop(ck0, eis@, k + 1, eis@.len() as int);
                    }
                    return Err(e);
                },
            };
            proof {
                if emit_block(c, eis@[k as int].block@).out is Panics {
                    lemma_else_ifs_stop(ck0, eis@, k + 1, eis@.len() as int);
                }
                assert(decreases_to!(eis@ => eis@[k as int].block@));
            }
            let b = match self.emit_block(eis[k].block.as_slice()) {
                Ok(x) => x,
                Err(e) => {
                    proof {
                        lemma_else_ifs_stop(ck0, eis@, k + 1, eis@.len() as int);
                    }
                    return Err(e);
                },
            };
            push_str(&mut out, "else if (");
            push_str(&mut out, cond.as_str());
            push_str(&mut out, ") {\n");
            push_str(&mut out, b.as_str());
            push_str(&mut out, "\n}\n");
            assert(out@ =~= before + "else if ("@ + cond@ + ") {\n"@ + b@ + "\n}\n"@);
            k = k + 1;
        }
        assert(eis@.take(eis@.len() as int) =~= eis@);
        Ok(out)
    }

    /// A `for` statement as a C loop in a scope of its own: `for condition`
    /// as `while`, `for init; condition; post` as a C `for`, and `for x in
    /// a..b` (or `a:b`) as a counting `for` with `<=` (or `<`). Its argument
    /// is one of the three `for` statements.
    pub fn emit_for(&mut self, stmt: &Statement) -> (r: Result<String, CodegenError>)
        requires
            !(emit_for_stmt(old(self)@, *stmt).out is Panics),
        ensures
            agrees(r, emit_for_stmt(old(self)@, *stmt).out),
            final(self)@ == emit_for_stmt(old(self)@, *stmt).ck,
        decreases stmt, 1nat,
    {
        match stmt {
            Statement::ForCondition { condition, body, .. } => {
                self.push_scope();
                let cond = self.emit_expression(condition)?;
                proof {
                    assert(decreases_to!(*stmt => body@));
                }
                let body_str = self.emit_block(body.as_slice())?;
                self.pop_scope();
                let mut res = String::from_str("while (");
                push_str(&mut res, cond.as_str());
                push_str(&mut res, ") {\n");
                push_str(&mut res, body_str.as_str());
                push_str(&mut res, "\n}");
                Ok(res)
            },
            Statement::ForCounter { init, condition, post, body, .. } => {
                self.push_scope();
                let initial = self.emit_statement(init)?;
                let cond = self.emit_expression(condition)?;
                let postfix = self.emit_expression(post)?;
                proof {
                    assert(decreases_to!(*stmt => body@));
                }
                let body_str = self.emit_block(body.as_slice())?;
                self.pop_scope();
                let mut res = String::from_str("for (");
                push_str(&mut res, initial.as_str());
                push_str(&mut res, " ");
                push_str(&mut res, cond.as_str());
                push_str(&mut res, "; ");
                push_str(&mut res, postfix.as_str());
                push_str(&mut res, ") {\n");
                push_str(&mut res, body_str.as_str());
                push_str(&mut res, "\n}");
                Ok(res)
            },
            Statement::ForRange { variable, iterable, body, span } => {
                self.push_scope();
                let (start, end, cmp) = match iterable {
                    Expression::Range { start, end, range_kind, .. } => {
                        let st = match start {
                            None => String::from_str("0"),
                            Some(s) => self.emit_expression(s)?,
                        };
                        let en = match end {
                            None => {
                                return Err(
                                    CodegenError::Unsupported(String::from_str("Open ranges")),
                                );
                            },
                            Some(e) => self.emit_expression(e)?,
                        };
                        let cmp = if matches!(range_kind, RangeKind::Inclusive) {
                            "<="
                        } else {
                            "<"
                        };
                        (st, en, cmp)
                    },
                    _ => {
                        return Err(
                            CodegenError::Unsupported(String::from_str("For-loop expects a range")),
                        );
                    },
                };
                self.checker.defined(variable.clone(), Ty::Int, BindingKind::Var, *span);
                proof {
                    assert(decreases_to!(*stmt => body@));
                }
                let body_str = self.emit_block(body.as_slice())?;
                self.pop_scope();
                let mut res = String::from_str("for (int64_t ");
                push_str(&mut res, variable.as_str());
                push_str(&mut res, " = ");
                push_str(&mut res, start.as_str());
                push_str(&mut res, "; ");
                push_str(&mut res, variable.as_str());
                push_str(&mut res, " ");
                push_str(&mut res, cmp);
                push_str(&mut res, " ");
                push_str(&mut res, end.as_str());
                push_str(&mut res, "; ");
                push_str(&mut res, variable.as_str());
                push_str(&mut res, "++) {\n");
                push_str(&mut res, body_str.as_str());
                push_str(&mut res, "\n}");
                Ok(res)
            },
            _ => vstd::pervasive::unreached(),
        }
    }

    /// The parameters bound in order as `var`s of their written types, and
    /// each written as `ctype name`.
    fn bind_parameters(&mut self, params: &Vec<FunParam>, span: Span, tab: bool) -> (r: Vec<String>)
        ensures
            final(self)@ == bind_params(old(self)@, params@, span),
            views(r@) == (if tab {
                field_texts(params@)
            } else {
                param_texts(params@)
            }),
    {
        let mut r: Vec<String> = Vec::new();
        let mut k: usize = 0;
        assert(params@.take(0) =~= Seq::<FunParam>::empty());
        while k < params.len()
            invariant
                k <= params@.len(),
                self@ == bind_params(old(self)@, params@.take(k as int), span),
                views(r@) == (if tab {
                    field_texts(params@)
                } else {
                    param_texts(params@)
                }).take(k as int),
            decreases params@.len() - k,
        {
            assert(params@.take(k + 1).drop_last() =~= params@.take(k as int));
            let ty = self.checker.resolve(&params[k].param_type);
            let mut t = if tab {
                String::from_str("\t")
            } else {
                String::new()
            };
            let ct = self.c_type(&ty);
            push_str(&mut t, ct.as_str());
            push_str(&mut t, " ");
            push_str(&mut t, params[k].name.as_str());
            self.checker.defined(params[k].name.clone(), ty, BindingKind::Var, span);
            let ghost before = views(r@);
            r.push(t);
            assert(views(r@) =~= before.push(t@));
            k = k + 1;
            assert(views(r@) =~= (if tab {
                field_texts(params@)
            } else {
                param_texts(params@)
            }).take(k as int));
        }
        assert(params@.take(params@.len() as int) =~= params@);
        r
    }
}

impl Codegen {
    /// A function definition: `rettype name(ctype param, ..) { body }`, with
    /// `(void)` when it has no parameters; the return type is that of the
    /// declared one, else `int` for `main` and `void` for the others. The
    /// parameters are bound in a scope of their own. Any other statement is
    /// unexpected.
    pub fn emit_function(&mut self, stmt: &Statement) -> (r: Result<String, CodegenError>)
        requires
            !(emit_fun_stmt(old(self)@, *stmt).out is Panics),
        ensures
            agrees(r, emit_fun_stmt(old(self)@, *stmt).out),
            final(self)@ == emit_fun_stmt(old(self)@, *stmt).ck,
        decreases stmt, 1nat,
    {
        if let Statement::Fun { name, params, return_type, body, span } = stmt {
            self.push_scope();
            let texts = self.bind_parameters(params, *span, false);
            let mut ret = if *name == String::from_str("main") {
                String::from_str("int")
            } else {
                String::from_str("void")
            };
            if let Some(ty) = return_type {
                let ty = self.checker.resolve(ty);
                ret = self.c_type(&ty);
            }
            assert(ret@ == return_text(name@, *return_type));
            let parameters = join_with(&texts, ", ");
            let ghost ptext = if params@.len() > 0 {
                "("@ + join(param_texts(params@), ", "@) + ")"@
            } else {
                "(void)"@
            };
            proof {
                assert(decreases_to!(*stmt => body@));
            }
            let body_str = self.emit_block(body.as_slice())?;
            self.pop_scope();
            let mut res = ret;
            push_str(&mut res, " ");
            push_str(&mut res, name.as_str());
            if params.len() > 0 {
                push_str(&mut res, "(");
                push_str(&mut res, parameters.as_str());
                push_str(&mut res, ")");
            } else {
                push_str(&mut res, "(void)");
            }
            assert(res@ =~= ret@ + " "@ + name@ + ptext);
            push_str(&mut res, " {\n");
            push_str(&mut res, body_str.as_str());
            push_str(&mut res, "\n}\n");
            assert(res@ =~= return_text(name@, *return_type) + " "@ + name@ + ptext + " {\n"@
                + body_str@ + "\n}\n"@);
            Ok(res)
        } else {
            Err(CodegenError::Unexpected(debug_statement(stmt)))
        }
    }

    /// A struct declaration as `typedef struct {\n\tctype field;\n..} Name;`.
    /// Any other statement is unexpected.
    pub fn emit_struct(&mut self, stmt: &Statement) -> (r: Result<String, CodegenError>)
        requires
            !(emit_struct_stmt(old(self)@, *stmt).out is Panics),
        ensures
            agrees(r, emit_struct_stmt(old(self)@, *stmt).out),
            final(self)@ == emit_struct_stmt(old(self)@, *stmt).ck,
    {
        if let Statement::Struct { name, fields, span } = stmt {
            self.push_scope();
            let texts = self.bind_parameters(fields, *span, true);
            let mut c_fields = join_with(&texts, ";\n");
            push_str(&mut c_fields, ";\n");
            self.pop_scope();
            let mut res = String::from_str("typedef struct {\n");
            push_str(&mut res, c_fields.as_str());
            push_str(&mut res, "} ");
            push_str(&mut res, name.as_str());
            push_str(&mut res, ";");
            assert(res@ =~= "typedef struct {\n"@ + join(field_texts(fields@), ";\n"@) + ";\n"@ + "} "@
                + name@ + ";"@);
            Ok(res)
        } else {
            Err(CodegenError::Unexpected(debug_statement(stmt)))
        }
    }

    /// A block: each statement's lines indented by four spaces, then
    /// `vio_str_drop` for each string the block bound, the last bound first;
    /// the lines joined by line feeds.
    pub fn emit_block(&mut self, body: &[Statement]) -> (r: Result<String, CodegenError>)
        requires
            !(emit_block(old(self)@, body@).out is Panics),
        ensures
            agrees(r, emit_block(old(self)@, body@).out),
            final(self)@ == emit_block(old(self)@, body@).ck,
        decreases body@, 2nat,
    {
        let ghost ck0 = self@;
        let mut lines: Vec<String> = Vec::new();
        let mut string_vars: Vec<String> = Vec::new();
        let mut i: usize = 0;
        assert(body@.take(0) =~= Seq::<Statement>::empty());
        assert(views(lines@) =~= Seq::<Seq<char>>::empty());
        assert(views(string_vars@) =~= Seq::<Seq<char>>::empty());
        while i < body.len()
            invariant
                i <= body@.len(),
                ck0 == old(self)@,
                block_prefix(ck0, body@.take(i as int)) == (BlockRun {
                    lines: views(lines@),
                    drops: views(string_vars@),
                    ck: self@,
                    stop: None,
                }),
                !(emit_block(ck0, body@).out is Panics),
            decreases body@.len() - i,
        {
            let s = &body[i];
            let ghost c = self@;
            assert(body@.take(i + 1).drop_last() =~= body@.take(i as int));
            assert(body@.take(i + 1).last() == body@[i as int]);
            assert(body@.take(body@.len() as int) =~= body@);
            self.note_string_binding(s, &mut string_vars);
            proof {
                if emit_stmt(c, *s).out is Panics {
                    lemma_block_stop(ck0, body@, i + 1, body@.len() as int);
                }
                assert(decreases_to!(body@ => body@[i as int]));
            }
            let stmt = match self.emit_statement(s) {
                Ok(t) => t,
                Err(e) => {
                    proof {
                        lemma_block_stop(ck0, body@, i + 1, body@.len() as int);
                    }
                    return Err(e);
                },
            };
            push_indented(&mut lines, &stmt);
            i = i + 1;
        }
        assert(body@.take(body@.len() as int) =~= body@);
        push_drops(&mut lines, &string_vars);
        Ok(join_with(&lines, "\n"))
    }
}

/// The result is the error the outcome names.
pub open spec fn fails_as<T>(r: Result<T, CodegenError>, out: Emitted) -> bool {
    match out {
        Emitted::Failed(e) => r is Err && r->Err_0@ == e,
        _ => false,
    }
}

impl Codegen {
    /// The first pass over the declarations: each constant bound and its
    /// `#define` line made, each function bound with its type.
    fn emit_defines(&mut self, decls: &Vec<Statement>) -> (r: Result<Vec<String>, CodegenError>)
        requires
            header_run(old(self)@, decls@).stop != Some(Emitted::Panics),
        ensures
            final(self)@ == header_run(old(self)@, decls@).ck,
            match header_run(old(self)@, decls@).stop {
                None => r is Ok && views(r->Ok_0@) == header_run(old(self)@, decls@).defines,
                Some(o) => fails_as(r, o),
            },
    {
        let ghost c0 = self@;
        let mut global_defines: Vec<String> = Vec::new();
        let mut i: usize = 0;
        assert(decls@.take(0) =~= Seq::<Statement>::empty());
        assert(views(global_defines@) =~= Seq::<Seq<char>>::empty());
        while i < decls.len()
            invariant
                i <= decls@.len(),
                c0 == old(self)@,
                header_run(c0, decls@.take(i as int)) == (HeaderRun {
                    defines: views(global_defines@),
                    ck: self@,
                    stop: None,
                }),
                header_run(c0, decls@).stop != Some(Emitted::Panics),
            decreases decls@.len() - i,
        {
            assert(decls@.take(i + 1).drop_last() =~= decls@.take(i as int));
            assert(decls@.take(i + 1).last() == decls@[i as int]);
            assert(decls@.take(decls@.len() as int) =~= decls@);
            match &decls[i] {
                Statement::Const { name, value, span } => {
                    proof {
                        if emit_expr(self@, *value) is Panics {
                            lemma_header_stop(c0, decls@, i + 1, decls@.len() as int);
                        }
                    }
                    let val_str = match self.emit_expression(value) {
                        Ok(v) => v,
                        Err(e) => {
                            proof {
                                lemma_header_stop(c0, decls@, i + 1, decls@.len() as int);
                            }
                            return Err(e);
                        },
                    };
                    let ty = self.checker.infer(value);
                    self.checker.defined(name.clone(), ty, BindingKind::Const, *span);
                    let mut d = String::from_str("#define ");
                    push_str(&mut d, name.as_str());
                    push_str(&mut d, " ");
                    push_str(&mut d, val_str.as_str());
                    let ghost before = views(global_defines@);
                    global_defines.push(d);
                    assert(views(global_defines@) =~= before.push(d@));
                },
                Statement::Fun { name, params, return_type, span, .. } => {
                    let mut p: Vec<Ty> = Vec::new();
                    let mut k: usize = 0;
                    while k < params.len()
                        invariant
                            k <= params@.len(),
                            p@.len() == k,
                            forall|m: int|
                                0 <= m < k ==> (#[trigger] p@[m])@ == spec_resolve_type(
                                    params@[m].param_type,
                                ),
                        decreases params@.len() - k,
                    {
                        p.push(self.checker.resolve(&params[k].param_type));
                        k = k + 1;
                    }
                    let ret = match return_type {
                        Some(t) => self.checker.resolve(t),
                        None => Ty::Unit,
                    };
                    assert(ret@ == (match *return_type {
                        Some(t) => spec_resolve_type(t),
                        None => TyView::Unit,
                    }));
                    let fn_ty = Ty::Fn { params: p, ret: Box::new(ret) };
                    assert(fn_ty@->Fn_params =~= fun_type(params@, *return_type)->Fn_params);
                    assert(*fn_ty@->Fn_ret == *fun_type(params@, *return_type)->Fn_ret);
                    assert(fn_ty@ == fun_type(params@, *return_type));
                    self.checker.defined(name.clone(), fn_ty, BindingKind::Var, *span);
                },
                _ => {},
            }
            i = i + 1;
        }
        assert(decls@.take(decls@.len() as int) =~= decls@);
        Ok(global_defines)
    }

    /// The second pass over the declarations: `main` as `int main(void)`
    /// around its block, constants skipped, every other declaration as a
    /// statement; the lines appended to `lines`.
    fn emit_declarations(&mut self, decls: &Vec<Statement>, lines: &mut Vec<String>) -> (r: Result<
        (),
        CodegenError,
    >)
        requires
            body_run(old(self)@, decls@).stop != Some(Emitted::Panics),
        ensures
            final(self)@ == body_run(old(self)@, decls@).ck,
            match body_run(old(self)@, decls@).stop {
                None => r is Ok && views(final(lines)@) == views(old(lines)@) + body_run(
                    old(self)@,
                    decls@,
                ).lines,
                Some(o) => fails_as(r, o),
            },
    {
        let ghost c0 = self@;
        let ghost lines0 = views(lines@);
        let mut j: usize = 0;
        proof {
            lemma_body_start(c0, decls@);
        }
        assert(lines0 + Seq::<Seq<char>>::empty() =~= lines0);
        while j < decls.len()
            invariant
                j <= decls@.len(),
                c0 == old(self)@,
                lines0 == views(old(lines)@),
                body_run(c0, decls@.take(j as int)).stop is None,
                body_run(c0, decls@.take(j as int)).ck == self@,
                views(lines@) == lines0 + body_run(c0, decls@.take(j as int)).lines,
                body_run(c0, decls@).stop != Some(Emitted::Panics),
            decreases decls@.len() - j,
        {
            proof {
                lemma_body_step(c0, decls@, j as int);
            }
            assert(decls@.take(decls@.len() as int) =~= decls@);
            let s = &decls[j];
            let is_main = match s {
                Statement::Fun { name, .. } => *name == String::from_str("main"),
                _ => false,
            };
            if matches!(s, Statement::Const { .. }) {
            } else if is_main {
                if let Statement::Fun { body, .. } = s {
                    proof {
                        if emit_block(self@, body@).out is Panics {
                            lemma_body_stop(c0, decls@, j + 1, decls@.len() as int);
                        }
                    }
                    let b = match self.emit_block(body.as_slice()) {
                        Ok(b) => b,
                        Err(e) => {
                            proof {
                                lemma_body_stop(c0, decls@, j + 1, decls@.len() as int);
                            }
                            return Err(e);
                        },
                    };
                    let ghost before = views(lines@);
                    lines.push(String::from_str("int main(void) {"));
                    lines.push(b);
                    lines.push(String::from_str("}"));
                    assert(views(lines@) =~= before + seq!["int main(void) {"@, b@, "}"@]);
                }
            } else {
                proof {
                    if emit_stmt(self@, *s).out is Panics {
                        lemma_body_stop(c0, decls@, j + 1, decls@.len() as int);
                    }
                }
                let stmt = match self.emit_statement(s) {
                    Ok(t) => t,
                    Err(e) => {
                        proof {
                            lemma_body_stop(c0, decls@, j + 1, decls@.len() as int);
                        }
                        return Err(e);
                    },
                };
                push_lines(lines, &stmt);
            }
            j = j + 1;
        }
        assert(decls@.take(decls@.len() as int) =~= decls@);
        Ok(())
    }

    /// The C file for a program: the runtime's header; a `#define` for each
    /// constant followed by an empty line, when there are any; the
    /// declarations, `main` as `int main(void)`; the top-level statements as
    /// `int main(void)` when there are any; the lines joined by line feeds,
    /// with one at the end. Struct declarations are recorded first and the
    /// whole file is generated in one scope opened for it.
    pub fn emit_program(&mut self, prg: Program) -> (r: Result<String, CodegenError>)
        requires
            !(emit_prog(old(self)@, prg.declarations@, prg.main@).out is Panics),
        ensures
            agrees(r, emit_prog(old(self)@, prg.declarations@, prg.main@).out),
            final(self)@ == emit_prog(old(self)@, prg.declarations@, prg.main@).ck,
    {
        let ghost ck0 = self@;
        let ghost g = emit_prog(ck0, prg.declarations@, prg.main@);
        let mut lines: Vec<String> = Vec::new();
        lines.push(String::from_str("#include \"vio_runtime.h\"\n"));
        self.checker.collect_signatures(&prg.declarations);
        self.push_scope();
        let ghost h = header_run(self@, prg.declarations@);
        let mut global_defines = self.emit_defines(&prg.declarations)?;
        if global_defines.len() > 0 {
            let ghost before = views(lines@);
            let ghost defs = views(global_defines@);
            lines.append(&mut global_defines);
            assert(views(lines@) =~= before + defs);
            let ghost with_defs = views(lines@);
            lines.push(String::from_str("\n"));
            assert(views(lines@) =~= with_defs.push("\n"@));
        }
        assert(views(lines@) =~= preamble(h.defines));
        let ghost b = body_run(self@, prg.declarations@);
        self.emit_declarations(&prg.declarations, &mut lines)?;
        assert(views(lines@) == preamble(h.defines) + b.lines);
        if prg.main.len() > 0 {
            let m = self.emit_block(prg.main.as_slice())?;
            let ghost before = views(lines@);
            lines.push(String::from_str("int main(void) {"));
            lines.push(m);
            lines.push(String::from_str("}"));
            assert(views(lines@) =~= before + seq!["int main(void) {"@, m@, "}"@]);
        }
        let mut res = join_with(&lines, "\n");
        push_str(&mut res, "\n");
        Ok(res)
    }
}

} // verus!
