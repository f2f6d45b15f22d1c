//! What the code generator produces, stated as functions of the checker's
//! state and the syntax tree.
use vstd::prelude::*;
use crate::codegen::error::CgErr;
use crate::lexer::token::Token;
use crate::parser::expression::{Expression, StructLiteralField};
use crate::text::{escape_text, int_text, nat_text, utf8_len};
use crate::typechecker::checker::{CheckerView, spec_infer};
use crate::typechecker::types::TyView;

verus! {

/// The outcome of generating code for a piece of syntax: the text, an error,
/// or a panic.
pub enum Emitted {
    Text(Seq<char>),
    Failed(CgErr),
    Panics,
}

/// How the `Debug` formatting of `std` writes an expression.
pub uninterp spec fn expression_debug(e: Expression) -> Seq<char>;

/// The C type for a type; a function type has none.
pub open spec fn spec_c_type(t: TyView) -> Seq<char> {
    match t {
        TyView::Int => "int64_t"@,
        TyView::Float => "double"@,
        TyView::Bool => "bool"@,
        TyView::String => "VioString"@,
        TyView::Struct(s) => s,
        TyView::Unit => "void"@,
        TyView::Fn { .. } => Seq::empty(),
        TyView::Unknown => "unknown"@,
    }
}

/// The C operator for an operator token.
pub open spec fn spec_operator(t: Token) -> Option<Seq<char>> {
    match t {
        Token::Assign => Some("="@),
        Token::Equals => Some("=="@),
        Token::NotEquals => Some("!="@),
        Token::Less => Some("<"@),
        Token::Greater => Some(">"@),
        Token::LessOrEquals => Some("<="@),
        Token::GreaterOrEquals => Some(">="@),
        Token::Add => Some("+"@),
        Token::Subtract => Some("-"@),
        Token::Multiply => Some("*"@),
        Token::Divide => Some("/"@),
        Token::Modulus => Some("%"@),
        Token::Increment => Some("++"@),
        Token::Decrement => Some("--"@),
        Token::AddAndAssign => Some("+="@),
        Token::SubAndAssign => Some("-="@),
        Token::MulAndAssign => Some("*="@),
        Token::DivAndAssign => Some("/="@),
        Token::ModAndAssign => Some("%="@),
        Token::BitAnd => Some("&"@),
        Token::BitOr => Some("|"@),
        Token::BitXOR => Some("^"@),
        Token::BitNot => Some("~"@),
        _ => None,
    }
}

/// The error for a token that is no operator of C.
pub open spec fn not_an_operator() -> CgErr {
    CgErr::Unexpected("Not an operator"@)
}

/// The C code for a string literal: a `VioString` made from the escaped text
/// and its length in UTF-8 bytes.
pub open spec fn string_literal_text(s: Seq<char>) -> Seq<char> {
    "vio_str_from_literal(\""@ + escape_text(s) + "\", "@ + nat_text(utf8_len(s)) + ")"@
}

/// The suffix of the runtime's print function for a type of argument.
pub open spec fn print_suffix(t: TyView) -> Option<Seq<char>> {
    match t {
        TyView::Int => Some("int"@),
        TyView::Float => Some("float"@),
        TyView::Bool => Some("bool"@),
        TyView::String => Some("string"@),
        _ => None,
    }
}

/// Two parts in order: the first failure, or both texts combined by `f`.
pub open spec fn then2(a: Emitted, b: Emitted, f: spec_fn(Seq<char>, Seq<char>) -> Seq<char>) -> Emitted {
    match a {
        Emitted::Text(x) => match b {
            Emitted::Text(y) => Emitted::Text(f(x, y)),
            other => other,
        },
        other => other,
    }
}

/// The C code for an expression.
pub open spec fn emit_expr(ck: CheckerView, e: Expression) -> Emitted
    decreases e, 0nat,
{
    match e {
        Expression::IntLiteral { val, .. } => Emitted::Text(int_text(val as int)),
        Expression::FloatLiteral { val, .. } => Emitted::Text(val@),
        Expression::BoolLiteral { val, .. } => Emitted::Text(
            if val {
                "true"@
            } else {
                "false"@
            },
        ),
        Expression::StringLiteral { val, .. } => Emitted::Text(string_literal_text(val@)),
        Expression::StructLiteral { name, fields, .. } => match emit_fields(ck, fields@) {
            Emitted::Text(t) => Emitted::Text("("@ + name@ + "){ ."@ + t + " }"@),
            other => other,
        },
        Expression::Prefix { operator, right, .. } => match spec_operator(operator) {
            None => Emitted::Failed(not_an_operator()),
            Some(o) => match emit_expr(ck, *right) {
                Emitted::Text(r) => Emitted::Text(o + r),
                other => other,
            },
        },
        Expression::Infix { left, operator, right, .. } => {
            if operator is Add && spec_infer(ck, *left) is String && spec_infer(ck, *right) is String {
                then2(
                    emit_expr(ck, *left),
                    emit_expr(ck, *right),
                    |l: Seq<char>, r: Seq<char>| "vio_str_concat("@ + l + ", "@ + r + ")"@,
                )
            } else if operator is Power {
                then2(
                    emit_expr(ck, *left),
                    emit_expr(ck, *right),
                    |l: Seq<char>, r: Seq<char>| "pow("@ + l + ", "@ + r + ")"@,
                )
            } else {
                match emit_expr(ck, *left) {
                    Emitted::Text(l) => match spec_operator(operator) {
                        None => Emitted::Failed(not_an_operator()),
                        Some(o) => match emit_expr(ck, *right) {
                            Emitted::Text(r) => Emitted::Text(
                                "("@ + l + " "@ + o + " "@ + r + ")"@,
                            ),
                            other => other,
                        },
                    },
                    other => other,
                }
            }
        },
        Expression::Postfix { left, operator, .. } => match emit_expr(ck, *left) {
            Emitted::Text(l) => match spec_operator(operator) {
                None => Emitted::Failed(not_an_operator()),
                Some(o) => Emitted::Text(l + o),
            },
            other => other,
        },
        Expression::Identifier { name, .. } => Emitted::Text(name@),
        Expression::Call { function, args, .. } => {
            if *function is Identifier && ((*function)->Identifier_name@ == "print"@
                || (*function)->Identifier_name@ == "println"@) && args@.len() == 1 {
                match print_suffix(spec_infer(ck, args@[0])) {
                    None => Emitted::Failed(CgErr::Unsupported("print for this type"@)),
                    Some(suffix) => match emit_expr(ck, args@[0]) {
                        Emitted::Text(a) => Emitted::Text(
                            "vio_"@ + (*function)->Identifier_name@ + "_"@ + suffix + "("@ + a + ")"@,
                        ),
                        other => other,
                    },
                }
            } else if *function is Identifier && (*function)->Identifier_name@ == "scanln"@
                && args@.len() == 0 {
                Emitted::Text("vio_"@ + (*function)->Identifier_name@ + "()"@)
            } else {
                then2(
                    emit_expr(ck, *function),
                    emit_args(ck, args@),
                    |f: Seq<char>, a: Seq<char>| f + "("@ + a + ")"@,
                )
            }
        },
        Expression::Field { object, name, .. } => match emit_expr(ck, *object) {
            Emitted::Text(o) => Emitted::Text(o + "."@ + name@),
            other => other,
        },
        _ => Emitted::Failed(CgErr::Unsupported("this expression: "@ + expression_debug(e))),
    }
}

/// The C code for call arguments, separated by `, `; the first failure stops it.
pub open spec fn emit_args(ck: CheckerView, es: Seq<Expression>) -> Emitted
    decreases es, es.len(),
{
    if es.len() == 0 {
        Emitted::Text(Seq::empty())
    } else {
        then2(
            emit_args(ck, es.drop_last()),
            emit_expr(ck, es.last()),
            |t: Seq<char>, a: Seq<char>| if es.len() == 1 {
                a
            } else {
                t + ", "@ + a
            },
        )
    }
}

/// The C designated initialisers for struct-literal fields, separated by
/// `, .`; a field whose value cannot be generated panics.
pub open spec fn emit_fields(ck: CheckerView, fs: Seq<StructLiteralField>) -> Emitted
    decreases fs, fs.len(),
{
    if fs.len() == 0 {
        Emitted::Text(Seq::empty())
    } else {
        match emit_fields(ck, fs.drop_last()) {
            Emitted::Text(t) => match emit_expr(ck, *fs.last().field_val) {
                Emitted::Text(v) => {
                    let item = fs.last().field_name@ + " = "@ + v;
                    Emitted::Text(
                        if fs.len() == 1 {
                            item
                        } else {
                            t + ", ."@ + item
                        },
                    )
                },
                _ => Emitted::Panics,
            },
            other => other,
        }
    }
}

} // verus!
