//! Typing of binary operators.
use vstd::prelude::*;
use crate::error::{Span, TypeError};
use crate::render::{render, type_to_string};
use crate::ty::{Ty, Type, clone_type, spec_compatible, spec_is_bool, spec_is_float, spec_is_integer, spec_is_numeric};

verus! {

/// A binary operator of the source language.
#[derive(Clone, Copy, PartialEq, Eq, Structural, Debug)]
pub enum BinaryOp {
    Add,
    Sub,
    Mul,
    Div,
    Mod,
    And,
    Or,
    BitAnd,
    BitOr,
    BitXor,
    Shl,
    Shr,
}

/// A binary operator of the intermediate representation.
#[derive(Clone, Copy, PartialEq, Eq, Structural, Debug)]
pub enum HirBinaryOp {
    Add,
    Sub,
    Mul,
    Div,
    Mod,
    And,
    Or,
    BitAnd,
    BitOr,
    BitXor,
    Shl,
    Shr,
    Eq,
    Ne,
    Lt,
    Le,
    Gt,
    Ge,
}

/// The ways in which the operand types of a binary operator can be wrong.
pub enum BinaryFailure {
    /// `&&` / `||` on a non-`bool` operand.
    ExpectedBool,
    /// A bit operation on an operand that is neither an integer nor a tag enum.
    ExpectedInt,
    /// Arithmetic on a non-numeric operand.
    ExpectedNumeric,
    /// Arithmetic on incompatible numeric operands.
    WrongType,
}

/// The result type of arithmetic on two numeric operands: `f64` if either is a
/// floating-point type, else `i64`.
pub open spec fn spec_merge_numeric(a: Ty, b: Ty) -> Ty {
    if spec_is_float(a) || spec_is_float(b) {
        Ty::F64
    } else {
        Ty::I64
    }
}

pub open spec fn int_like(t: Ty) -> bool {
    spec_is_integer(t) || t is ScalarEnum
}

/// The operator of the intermediate representation and the result type of
/// `left op right`, or the way in which the operands are wrong.
pub open spec fn spec_check_binary(op: BinaryOp, left: Ty, right: Ty) -> Result<(HirBinaryOp, Ty), BinaryFailure> {
    match op {
        BinaryOp::And | BinaryOp::Or => if !spec_is_bool(left) || !spec_is_bool(right) {
            Err(BinaryFailure::ExpectedBool)
        } else {
            Ok((if op == BinaryOp::And { HirBinaryOp::And } else { HirBinaryOp::Or }, Ty::Bool))
        },
        BinaryOp::BitAnd | BinaryOp::BitOr | BinaryOp::BitXor | BinaryOp::Shl | BinaryOp::Shr => {
            if !int_like(left) || !int_like(right) {
                Err(BinaryFailure::ExpectedInt)
            } else {
                let h = match op {
                    BinaryOp::BitAnd => HirBinaryOp::BitAnd,
                    BinaryOp::BitOr => HirBinaryOp::BitOr,
                    BinaryOp::BitXor => HirBinaryOp::BitXor,
                    BinaryOp::Shl => HirBinaryOp::Shl,
                    _ => HirBinaryOp::Shr,
                };
                Ok((h, if left is ScalarEnum || right is ScalarEnum { Ty::I64 } else { left }))
            }
        },
        _ => {
            let h = match op {
                BinaryOp::Add => HirBinaryOp::Add,
                BinaryOp::Sub => HirBinaryOp::Sub,
                BinaryOp::Mul => HirBinaryOp::Mul,
                BinaryOp::Div => HirBinaryOp::Div,
                _ => HirBinaryOp::Mod,
            };
            if !spec_is_numeric(left) || !spec_is_numeric(right) {
                Err(BinaryFailure::ExpectedNumeric)
            } else if !spec_compatible(left, right) {
                Err(BinaryFailure::WrongType)
            } else {
                Ok((h, spec_merge_numeric(left, right)))
            }
        },
    }
}

/// Checks the operand types of `left op right`: `&&`/`||` need `bool`s; bit
/// operations need integers or tag enums (a tag enum operand gives `i64`, else
/// the left type); arithmetic needs compatible numeric types and gives their
/// merged type. Errors name the left operand's type (and the right one's for a
/// mismatch).
pub fn check_binary(op: BinaryOp, left: &Type, right: &Type, span: Span) -> (r: Result<(HirBinaryOp, Type), TypeError>)
    ensures
        match spec_check_binary(op, left@, right@) {
            Ok((h, t)) => r matches Ok((h2, t2)) && h2 == h && t2@ == t,
            Err(BinaryFailure::ExpectedBool) => r matches Err(TypeError::ExpectedBool { found, span: s })
                && found@ == render(left@) && s == span,
            Err(BinaryFailure::ExpectedInt) => r matches Err(TypeError::ExpectedInt { found, span: s })
                && found@ == render(left@) && s == span,
            Err(BinaryFailure::ExpectedNumeric) => r matches Err(TypeError::ExpectedNumeric { found, span: s })
                && found@ == render(left@) && s == span,
            Err(BinaryFailure::WrongType) => r matches Err(TypeError::WrongType { expected, found, span: s })
                && expected@ == render(left@) && found@ == render(right@) && s == span,
        },
{
    let hir_op = match op {
        BinaryOp::Add => HirBinaryOp::Add,
        BinaryOp::Sub => HirBinaryOp::Sub,
        BinaryOp::Mul => HirBinaryOp::Mul,
        BinaryOp::Div => HirBinaryOp::Div,
        BinaryOp::Mod => HirBinaryOp::Mod,
        BinaryOp::And | BinaryOp::Or => {
            if !left.is_bool() || !right.is_bool() {
                return Err(TypeError::ExpectedBool { found: type_to_string(left), span });
            }
            let hir_op = if op == BinaryOp::And {
                HirBinaryOp::And
            } else {
                HirBinaryOp::Or
            };
            return Ok((hir_op, Type::Bool));
        },
        BinaryOp::BitAnd | BinaryOp::BitOr | BinaryOp::BitXor | BinaryOp::Shl | BinaryOp::Shr => {
            let l_int = left.is_integer() || matches!(left, Type::ScalarEnum(_));
            let r_int = right.is_integer() || matches!(right, Type::ScalarEnum(_));
            if !l_int || !r_int {
                return Err(TypeError::ExpectedInt { found: type_to_string(left), span });
            }
            let hir_op = match op {
                BinaryOp::BitAnd => HirBinaryOp::BitAnd,
                BinaryOp::BitOr => HirBinaryOp::BitOr,
                BinaryOp::BitXor => HirBinaryOp::BitXor,
                BinaryOp::Shl => HirBinaryOp::Shl,
                _ => HirBinaryOp::Shr,
            };
            let result_ty = if matches!(left, Type::ScalarEnum(_)) || matches!(right, Type::ScalarEnum(_)) {
                Type::I64
            } else {
                clone_type(left)
            };
            return Ok((hir_op, result_ty));
        },
    };
    if !left.is_numeric() || !right.is_numeric() {
        return Err(TypeError::ExpectedNumeric { found: type_to_string(left), span });
    }
    if !left.compatible_with(right) {
        return Err(TypeError::WrongType { expected: type_to_string(left), found: type_to_string(right), span });
    }
    Ok((hir_op, merge_numeric(clone_type(left), clone_type(right))))
}

/// The name of the operator-trait method that `op` falls back to when its
/// operands are not built-in types; `&&` and `||` cannot be overloaded.
pub fn overload_method(op: BinaryOp) -> (r: Option<&'static str>)
    ensures
        r matches Some(name) ==> name@ == match op {
            BinaryOp::Add => "add"@,
            BinaryOp::Sub => "sub"@,
            BinaryOp::Mul => "mul"@,
            BinaryOp::Div => "div"@,
            BinaryOp::Mod => "rem"@,
            BinaryOp::BitAnd => "bitand"@,
            BinaryOp::BitOr => "bitor"@,
            BinaryOp::BitXor => "bitxor"@,
            BinaryOp::Shl => "shl"@,
            _ => "shr"@,
        },
        r is None <==> (op == BinaryOp::And || op == BinaryOp::Or),
{
    let name = match op {
        BinaryOp::Add => "add",
        BinaryOp::Sub => "sub",
        BinaryOp::Mul => "mul",
        BinaryOp::Div => "div",
        BinaryOp::Mod => "rem",
        BinaryOp::BitAnd => "bitand",
        BinaryOp::BitOr => "bitor",
        BinaryOp::BitXor => "bitxor",
        BinaryOp::Shl => "shl",
        BinaryOp::Shr => "shr",
        BinaryOp::And | BinaryOp::Or => return None,
    };
    Some(name)
}

/// The scalar types that `as` may convert between.
pub open spec fn spec_castable_scalar(t: Ty) -> bool {
    spec_is_numeric(t) || t is Bool || t is Char
}

/// Whether `t` may be the source or target of an `as` conversion.
pub fn is_castable_scalar(t: &Type) -> (r: bool)
    ensures
        r == spec_castable_scalar(t@),
{
    match t {
        Type::I8 | Type::I16 | Type::I32 | Type::I64 | Type::ISize | Type::U8 | Type::U16 | Type::U32
        | Type::U64 | Type::USize | Type::F32 | Type::F64 | Type::Bool | Type::Char => true,
        _ => false,
    }
}

/// The result type of arithmetic on `a` and `b`.
pub fn merge_numeric(a: Type, b: Type) -> (r: Type)
    ensures
        r@ == spec_merge_numeric(a@, b@),
{
    if a.is_float() || b.is_float() {
        Type::F64
    } else {
        Type::I64
    }
}

} // verus!
