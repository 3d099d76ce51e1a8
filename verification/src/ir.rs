//! The typed, basic-block intermediate representation the code generator
//! emits: one IR function per source function, each a straight-line block
//! of instructions over consecutively numbered value ids, ending in
//! exactly one terminator.
//!
//! I/O statements become calls to the five named external runtime entry
//! points `print_int`, `print_float`, `print_str`, `read_int` and
//! `read_float`; the backend consuming the module must preserve block and
//! instruction order as program order.

use vstd::prelude::*;

use crate::ast::{FloatLit, Type};

verus! {

/// A binary arithmetic operation.
#[derive(Clone, Copy, Debug, PartialEq, Eq, Structural)]
pub enum BinOp {
    Add,
    Sub,
    Mul,
    Div,
}

/// One IR instruction. An instruction that produces a value names it by
/// `dest`; ids are assigned consecutively within a function. Division by
/// a runtime zero is not checked at compile time: it is a concern of the
/// target instruction set.
#[derive(Debug, PartialEq)]
pub enum Inst {
    /// Allocates the 4-byte stack slot for variable `name`; `dest` is the
    /// slot id.
    Alloca { dest: usize, ty: Type, name: String },
    /// An immediate 32-bit integer constant.
    ConstInt { dest: usize, value: i32 },
    /// An immediate float constant, in exact decimal form.
    ConstFloat { dest: usize, value: FloatLit },
    /// Loads the current value of slot `slot`, typed `ty`.
    Load { dest: usize, ty: Type, slot: usize },
    /// Stores value `src` into slot `slot`.
    Store { slot: usize, src: usize },
    /// Widens the integer value `src` to a float value.
    IntToFloat { dest: usize, src: usize },
    /// Truncates the float value `src` to an integer value.
    FloatToInt { dest: usize, src: usize },
    /// Applies `op` at type `ty` to operands `lhs` and `rhs`.
    Bin { dest: usize, op: BinOp, ty: Type, lhs: usize, rhs: usize },
    /// Calls the runtime entry `print_int` with value `src`.
    PrintInt { src: usize },
    /// Calls the runtime entry `print_float` with value `src`.
    PrintFloat { src: usize },
    /// Calls the runtime entry `print_str` with the literal `text`.
    PrintStr { text: String },
    /// Calls the runtime entry `read_int`; defines the value read.
    ReadInt { dest: usize },
    /// Calls the runtime entry `read_float`; defines the value read.
    ReadFloat { dest: usize },
}

/// A block terminator: control leaves the block here, returning `value`.
#[derive(Clone, Copy, Debug, PartialEq, Eq, Structural)]
pub enum Terminator {
    Ret { value: usize },
}

/// A basic block: a straight-line instruction sequence and at most one
/// terminator slot. The block is well formed only once the terminator is
/// present.
#[derive(Debug, PartialEq)]
pub struct BasicBlock {
    pub insts: Vec<Inst>,
    pub terminator: Option<Terminator>,
}

/// An IR function: a name, a declared return type, and its basic blocks.
#[derive(Debug, PartialEq)]
pub struct IrFunction {
    pub name: String,
    pub return_type: Type,
    pub blocks: Vec<BasicBlock>,
}

/// An IR module: the functions of one program, in source order.
#[derive(Debug, PartialEq)]
pub struct IrModule {
    pub name: String,
    pub functions: Vec<IrFunction>,
}

/// A well-formed block ends in exactly one terminator.
pub open spec fn block_wf(b: BasicBlock) -> bool {
    b.terminator is Some
}

/// A well-formed function has at least one block and every block of it is
/// terminated.
pub open spec fn function_wf(f: IrFunction) -> bool {
    &&& f.blocks@.len() >= 1
    &&& forall|k: int| 0 <= k < f.blocks@.len() ==> block_wf(#[trigger] f.blocks@[k])
}

/// A well-formed module holds only well-formed functions.
pub open spec fn module_wf(m: IrModule) -> bool {
    forall|k: int| 0 <= k < m.functions@.len() ==> function_wf(#[trigger] m.functions@[k])
}

impl IrFunction {
    /// The terminator post-condition check the code generator runs on
    /// every function it emits: at least one block, and every block ends
    /// in exactly one terminator.
    pub fn check_terminated(&self) -> (r: bool)
        ensures
            r == function_wf(*self),
    {
        if self.blocks.len() == 0 {
            return false;
        }
        let mut k: usize = 0;
        while k < self.blocks.len()
            invariant
                k <= self.blocks@.len(),
                forall|t: int| 0 <= t < k ==> block_wf(#[trigger] self.blocks@[t]),
            decreases self.blocks@.len() - k,
        {
            if self.blocks[k].terminator.is_none() {
                return false;
            }
            k = k + 1;
        }
        true
    }
}

} // verus!
