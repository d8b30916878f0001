//! The operator table: precedence rank and associativity for every known
//! operator symbol, and the pop decision used by the shunting-yard converter.

use vstd::prelude::*;
use crate::token::{Assoc, OpSym};

verus! {

/// The operator table as a mathematical function.  A lower precedence rank
/// binds tighter: `POS`/`NEG` rank 1, `/ * %` rank 2, `+ -` rank 3,
/// `<< >>` rank 4.  The unary signs are right-associative, all the rest
/// are left-associative.
pub open spec fn op_info_spec(op: OpSym) -> (u8, Assoc) {
    match op {
        OpSym::Pos => (1u8, Assoc::Right),
        OpSym::Neg => (1u8, Assoc::Right),
        OpSym::Div => (2u8, Assoc::Left),
        OpSym::Mul => (2u8, Assoc::Left),
        OpSym::Rem => (2u8, Assoc::Left),
        OpSym::Add => (3u8, Assoc::Left),
        OpSym::Sub => (3u8, Assoc::Left),
        OpSym::Shl => (4u8, Assoc::Left),
        OpSym::Shr => (4u8, Assoc::Left),
    }
}

/// Looks an operator up in the table, returning its precedence rank and
/// associativity.  Every constructible symbol is in the table, so the
/// lookup always succeeds; the `Option` is the shape of a table lookup.
pub fn get_op_info(op: OpSym) -> (r: Option<(u8, Assoc)>)
    ensures
        r == Some(op_info_spec(op)),
{
    match op {
        OpSym::Pos => Some((1u8, Assoc::Right)),
        OpSym::Neg => Some((1u8, Assoc::Right)),
        OpSym::Div => Some((2u8, Assoc::Left)),
        OpSym::Mul => Some((2u8, Assoc::Left)),
        OpSym::Rem => Some((2u8, Assoc::Left)),
        OpSym::Add => Some((3u8, Assoc::Left)),
        OpSym::Sub => Some((3u8, Assoc::Left)),
        OpSym::Shl => Some((4u8, Assoc::Left)),
        OpSym::Shr => Some((4u8, Assoc::Left)),
    }
}

/// Whether an operator `op2` sitting on the converter's stack must be
/// popped to the output before the incoming operator `op1` is pushed:
/// `op2` binds tighter than `op1`, or equally tight while `op1` is
/// left-associative.
pub open spec fn need_pop_spec(op1: OpSym, op2: OpSym) -> bool {
    let (p1, a1) = op_info_spec(op1);
    let (p2, _a2) = op_info_spec(op2);
    p2 < p1 || (p2 == p1 && a1 == Assoc::Left)
}

/// The pop decision of the shunting-yard converter.
pub fn need_op_pop_from_stack(op1: OpSym, op2: OpSym) -> (r: bool)
    ensures
        r == need_pop_spec(op1, op2),
{
    let (p1, a1) = get_op_info(op1).unwrap();
    let (p2, _) = get_op_info(op2).unwrap();
    p2 < p1 || (p2 == p1 && a1 == Assoc::Left)
}

} // verus!
