use vstd::prelude::*;
use crate::fatops::FatOp;
use crate::heap::{Object, Value, ObjectHeap};
use crate::registry::CodeContainer;
use crate::registry::MethodImpl;
use crate::registry::full_mangled;
use crate::strutil::str_eq;

verus! {

/// How a call fails. Method-not-found is the one failure a caller is meant
/// to catch and react to; the others report a corrupt frame, a bad handle, or
/// an instruction outside what the engine executes.
#[derive(Debug, Clone, Copy, PartialEq, Eq, Structural)]
pub enum CallError {
    /// No executable form stands under the handle the call named.
    MethodNotFound,
    /// A recognized instruction that is not executable: invoke-dynamic, or an
    /// operation on long, double or float values, which the 32-bit value
    /// model does not carry.
    UnsupportedOp,
    /// The null handle was dereferenced.
    NullPointer,
    /// An object handle outside the heap.
    BadHandle,
    /// A pop from an empty operand stack.
    StackUnderflow,
    /// A local-variable slot outside the frame.
    BadLocal,
    /// An operand of the wrong kind for the instruction.
    OperandType,
    /// An integer division or remainder by zero.
    DivisionByZero,
    /// An array access outside the array, or on something that is no array.
    IndexOutOfBounds,
    /// A new-array instruction with a negative length.
    NegativeArraySize,
    /// A checked cast that does not hold.
    ClassCast,
    /// A class named by an instruction is not registered.
    MissingClass,
    /// A field named by an instruction is not in the class it was sought in.
    MissingField,
    /// An exception object was thrown and not caught.
    Thrown(usize),
    /// Execution fell off the end of the instruction sequence.
    EndOfCode,
    /// The step budget of the call was exhausted.
    OutOfFuel,
    /// The nesting budget of the call was exhausted.
    CallDepthExceeded,
}

/// The call contract of externally registered (native) methods: a native
/// receives the handle it is bound to, the argument frame and the heap, and
/// returns a value or a failure. It may allocate, but the heap tables never
/// shrink. A native may be bound over a previously interpreted or missing
/// method at any time; every later call through the handle reaches it.
pub trait NativeMethods {
    fn call_native(&mut self, method: usize, args: &Vec<Value>, heap: &mut ObjectHeap) -> (r:
        Result<Value, CallError>)
        ensures
            final(heap).spec_objects().len() >= old(heap).spec_objects().len(),
            final(heap).spec_statics().len() >= old(heap).spec_statics().len(),
    ;
}

/// A native registry with nothing bound: every native call fails as missing.
pub struct NoNatives;

impl NativeMethods for NoNatives {
    fn call_native(&mut self, method: usize, args: &Vec<Value>, heap: &mut ObjectHeap) -> (r:
        Result<Value, CallError>) {
        Err(CallError::MethodNotFound)
    }
}

/// The truncating 32-bit quotient the division instruction computes, with
/// the single wrapping case of the most negative dividend, or the
/// divide-by-zero failure.
pub open spec fn spec_idiv(a: i32, b: i32) -> Result<i32, CallError> {
    if b == 0 {
        Err(CallError::DivisionByZero)
    } else if a == i32::MIN && b == -1 {
        Ok(i32::MIN)
    } else {
        match a.checked_div(b) {
            Option::Some(q) => Ok(q),
            Option::None => Err(CallError::DivisionByZero),
        }
    }
}

/// The truncating 32-bit remainder, with the single wrapping case of the
/// most negative dividend.
pub open spec fn spec_irem(a: i32, b: i32) -> Result<i32, CallError> {
    if b == 0 {
        Err(CallError::DivisionByZero)
    } else if a == i32::MIN && b == -1 {
        Ok(0i32)
    } else {
        match a.checked_rem(b) {
            Option::Some(q) => Ok(q),
            Option::None => Err(CallError::DivisionByZero),
        }
    }
}

/// Popping the top operand of a spec-level stack.
pub open spec fn spec_pop(stack: Seq<Value>) -> Result<(Value, Seq<Value>), CallError> {
    if stack.len() == 0 {
        Err(CallError::StackUnderflow)
    } else {
        Ok((stack.last(), stack.drop_last()))
    }
}

/// Popping an integer operand of a spec-level stack.
pub open spec fn spec_pop_int(stack: Seq<Value>) -> Result<(i32, Seq<Value>), CallError> {
    match spec_pop(stack) {
        Result::Ok((v, s)) => match v {
            Value::Int(n) => Ok((n, s)),
            _ => Err(CallError::OperandType),
        },
        Result::Err(e) => Err(e),
    }
}

/// Popping an object-reference operand of a spec-level stack.
pub open spec fn spec_pop_ref(stack: Seq<Value>) -> Result<(usize, Seq<Value>), CallError> {
    match spec_pop(stack) {
        Result::Ok((v, s)) => match v {
            Value::ObjectRef(h) => Ok((h, s)),
            _ => Err(CallError::OperandType),
        },
        Result::Err(e) => Err(e),
    }
}

/// The shift distance an integer shift instruction uses: the low five bits of
/// the operand.
pub open spec fn spec_shift(b: i32) -> u32 {
    (b as u32) % 32
}

/// What one frame-only instruction does to the running frame: a new stack,
/// locals and instruction index; a returned value; a failure; or `Beyond`,
/// for an instruction whose effect goes beyond the frame — it touches the
/// heap or the registry, makes a call, or is not executable at all.
pub enum FrameStep {
    Next(Seq<Value>, Seq<Value>, int),
    Returned(Value),
    Failed(CallError),
    Beyond,
}

/// The small-step semantics of the frame-only fragment of the resolved-op
/// set: constant loads, local loads and stores, 32-bit integer arithmetic and
/// conversions, stack shuffles, branches and returns. Everything else is
/// `Beyond` this fragment.
pub open spec fn frame_step(op: FatOp, stack: Seq<Value>, locals: Seq<Value>, pc: int) -> FrameStep {
    match op {
        FatOp::AConstNull => FrameStep::Next(stack.push(Value::ObjectRef(0)), locals, pc + 1),
        FatOp::IConst(v) => FrameStep::Next(stack.push(Value::Int(v)), locals, pc + 1),
        FatOp::BConst(v) => FrameStep::Next(stack.push(Value::Int(v as i32)), locals, pc + 1),
        FatOp::SConst(v) => FrameStep::Next(stack.push(Value::Int(v as i32)), locals, pc + 1),
        FatOp::FConst(bits) => FrameStep::Next(stack.push(Value::Float(bits)), locals, pc + 1),
        FatOp::ALoad(i) => if i < locals.len() {
            FrameStep::Next(stack.push(locals[i as int]), locals, pc + 1)
        } else {
            FrameStep::Failed(CallError::BadLocal)
        },
        FatOp::ILoad(i) => if i < locals.len() {
            FrameStep::Next(stack.push(locals[i as int]), locals, pc + 1)
        } else {
            FrameStep::Failed(CallError::BadLocal)
        },
        FatOp::FLoad(i) => if i < locals.len() {
            FrameStep::Next(stack.push(locals[i as int]), locals, pc + 1)
        } else {
            FrameStep::Failed(CallError::BadLocal)
        },
        FatOp::AStore(i) => if i < locals.len() {
            match spec_pop(stack) {
                Result::Ok((v, s)) => FrameStep::Next(s, locals.update(i as int, v), pc + 1),
                Result::Err(e) => FrameStep::Failed(e),
            }
        } else {
            FrameStep::Failed(CallError::BadLocal)
        },
        FatOp::IStore(i) => if i < locals.len() {
            match spec_pop(stack) {
                Result::Ok((v, s)) => FrameStep::Next(s, locals.update(i as int, v), pc + 1),
                Result::Err(e) => FrameStep::Failed(e),
            }
        } else {
            FrameStep::Failed(CallError::BadLocal)
        },
        FatOp::FStore(i) => if i < locals.len() {
            match spec_pop(stack) {
                Result::Ok((v, s)) => FrameStep::Next(s, locals.update(i as int, v), pc + 1),
                Result::Err(e) => FrameStep::Failed(e),
            }
        } else {
            FrameStep::Failed(CallError::BadLocal)
        },
        FatOp::IAdd => spec_int_binop(stack, locals, pc, FatOp::IAdd),
        FatOp::ISub => spec_int_binop(stack, locals, pc, FatOp::ISub),
        FatOp::IMul => spec_int_binop(stack, locals, pc, FatOp::IMul),
        FatOp::IDiv => spec_int_binop(stack, locals, pc, FatOp::IDiv),
        FatOp::IRem => spec_int_binop(stack, locals, pc, FatOp::IRem),
        FatOp::IAnd => spec_int_binop(stack, locals, pc, FatOp::IAnd),
        FatOp::IOr => spec_int_binop(stack, locals, pc, FatOp::IOr),
        FatOp::IXOr => spec_int_binop(stack, locals, pc, FatOp::IXOr),
        FatOp::IShl => spec_int_binop(stack, locals, pc, FatOp::IShl),
        FatOp::IShr => spec_int_binop(stack, locals, pc, FatOp::IShr),
        FatOp::IUShr => spec_int_binop(stack, locals, pc, FatOp::IUShr),
        FatOp::INeg => match spec_pop_int(stack) {
            Result::Ok((a, s)) => FrameStep::Next(
                s.push(Value::Int(0i32.wrapping_sub(a))),
                locals,
                pc + 1,
            ),
            Result::Err(e) => FrameStep::Failed(e),
        },
        FatOp::IInc(i, delta) => if i < locals.len() {
            match locals[i as int] {
                Value::Int(v) => FrameStep::Next(
                    stack,
                    locals.update(i as int, Value::Int(v.wrapping_add(delta as i32))),
                    pc + 1,
                ),
                _ => FrameStep::Failed(CallError::OperandType),
            }
        } else {
            FrameStep::Failed(CallError::BadLocal)
        },
        FatOp::I2B => match spec_pop_int(stack) {
            Result::Ok((a, s)) => FrameStep::Next(
                s.push(Value::Int((a as i8) as i32)),
                locals,
                pc + 1,
            ),
            Result::Err(e) => FrameStep::Failed(e),
        },
        FatOp::I2C => match spec_pop_int(stack) {
            Result::Ok((a, s)) => FrameStep::Next(
                s.push(Value::Int((a as u16) as i32)),
                locals,
                pc + 1,
            ),
            Result::Err(e) => FrameStep::Failed(e),
        },
        FatOp::I2S => match spec_pop_int(stack) {
            Result::Ok((a, s)) => FrameStep::Next(
                s.push(Value::Int((a as i16) as i32)),
                locals,
                pc + 1,
            ),
            Result::Err(e) => FrameStep::Failed(e),
        },
        FatOp::IfICmpEq(t) => spec_int_branch(stack, locals, pc, FatOp::IfICmpEq(t)),
        FatOp::IfICmpNe(t) => spec_int_branch(stack, locals, pc, FatOp::IfICmpNe(t)),
        FatOp::IfICmpLess(t) => spec_int_branch(stack, locals, pc, FatOp::IfICmpLess(t)),
        FatOp::IfICmpLessEqual(t) => spec_int_branch(stack, locals, pc, FatOp::IfICmpLessEqual(t)),
        FatOp::IfICmpGreater(t) => spec_int_branch(stack, locals, pc, FatOp::IfICmpGreater(t)),
        FatOp::IfIGreterEqual(t) => spec_int_branch(stack, locals, pc, FatOp::IfIGreterEqual(t)),
        FatOp::IfZero(t) => spec_zero_branch(stack, locals, pc, FatOp::IfZero(t)),
        FatOp::IfNotZero(t) => spec_zero_branch(stack, locals, pc, FatOp::IfNotZero(t)),
        FatOp::IfLessZero(t) => spec_zero_branch(stack, locals, pc, FatOp::IfLessZero(t)),
        FatOp::IfLessEqualZero(t) => spec_zero_branch(stack, locals, pc, FatOp::IfLessEqualZero(t)),
        FatOp::IfGreterZero(t) => spec_zero_branch(stack, locals, pc, FatOp::IfGreterZero(t)),
        FatOp::IfGreterEqualZero(t) => spec_zero_branch(
            stack,
            locals,
            pc,
            FatOp::IfGreterEqualZero(t),
        ),
        FatOp::IfNull(t) => match spec_pop_ref(stack) {
            Result::Ok((h, s)) => FrameStep::Next(
                s,
                locals,
                if h == 0 {
                    t as int
                } else {
                    pc + 1
                },
            ),
            Result::Err(e) => FrameStep::Failed(e),
        },
        FatOp::IfNotNull(t) => match spec_pop_ref(stack) {
            Result::Ok((h, s)) => FrameStep::Next(
                s,
                locals,
                if h != 0 {
                    t as int
                } else {
                    pc + 1
                },
            ),
            Result::Err(e) => FrameStep::Failed(e),
        },
        FatOp::IfACmpEq(t) => match spec_pop_ref(stack) {
            Result::Ok((b, s1)) => match spec_pop_ref(s1) {
                Result::Ok((a, s2)) => FrameStep::Next(
                    s2,
                    locals,
                    if a == b {
                        t as int
                    } else {
                        pc + 1
                    },
                ),
                Result::Err(e) => FrameStep::Failed(e),
            },
            Result::Err(e) => FrameStep::Failed(e),
        },
        FatOp::IfACmpNe(t) => match spec_pop_ref(stack) {
            Result::Ok((b, s1)) => match spec_pop_ref(s1) {
                Result::Ok((a, s2)) => FrameStep::Next(
                    s2,
                    locals,
                    if a != b {
                        t as int
                    } else {
                        pc + 1
                    },
                ),
                Result::Err(e) => FrameStep::Failed(e),
            },
            Result::Err(e) => FrameStep::Failed(e),
        },
        FatOp::GoTo(t) => FrameStep::Next(stack, locals, t as int),
        FatOp::Dup => if stack.len() == 0 {
            FrameStep::Failed(CallError::StackUnderflow)
        } else {
            FrameStep::Next(stack.push(stack.last()), locals, pc + 1)
        },
        FatOp::Dup2 => if stack.len() < 2 {
            FrameStep::Failed(CallError::StackUnderflow)
        } else {
            FrameStep::Next(
                stack.push(stack[stack.len() - 2]).push(stack[stack.len() - 1]),
                locals,
                pc + 1,
            )
        },
        FatOp::DupX1 => match spec_pop(stack) {
            Result::Ok((a, s1)) => match spec_pop(s1) {
                Result::Ok((b, s2)) => FrameStep::Next(
                    s2.push(a).push(b).push(a),
                    locals,
                    pc + 1,
                ),
                Result::Err(e) => FrameStep::Failed(e),
            },
            Result::Err(e) => FrameStep::Failed(e),
        },
        FatOp::DupX2 => match spec_pop(stack) {
            Result::Ok((a, s1)) => match spec_pop(s1) {
                Result::Ok((b, s2)) => match spec_pop(s2) {
                    Result::Ok((c, s3)) => FrameStep::Next(
                        s3.push(a).push(c).push(b).push(a),
                        locals,
                        pc + 1,
                    ),
                    Result::Err(e) => FrameStep::Failed(e),
                },
                Result::Err(e) => FrameStep::Failed(e),
            },
            Result::Err(e) => FrameStep::Failed(e),
        },
        FatOp::Dup2X1 => match spec_pop(stack) {
            Result::Ok((a, s1)) => match spec_pop(s1) {
                Result::Ok((b, s2)) => match spec_pop(s2) {
                    Result::Ok((c, s3)) => FrameStep::Next(
                        s3.push(b).push(a).push(c).push(b).push(a),
                        locals,
                        pc + 1,
                    ),
                    Result::Err(e) => FrameStep::Failed(e),
                },
                Result::Err(e) => FrameStep::Failed(e),
            },
            Result::Err(e) => FrameStep::Failed(e),
        },
        FatOp::Dup2X2 => match spec_pop(stack) {
            Result::Ok((a, s1)) => match spec_pop(s1) {
                Result::Ok((b, s2)) => match spec_pop(s2) {
                    Result::Ok((c, s3)) => match spec_pop(s3) {
                        Result::Ok((d, s4)) => FrameStep::Next(
                            s4.push(b).push(a).push(d).push(c).push(b).push(a),
                            locals,
                            pc + 1,
                        ),
                        Result::Err(e) => FrameStep::Failed(e),
                    },
                    Result::Err(e) => FrameStep::Failed(e),
                },
                Result::Err(e) => FrameStep::Failed(e),
            },
            Result::Err(e) => FrameStep::Failed(e),
        },
        FatOp::Swap => match spec_pop(stack) {
            Result::Ok((a, s1)) => match spec_pop(s1) {
                Result::Ok((b, s2)) => FrameStep::Next(s2.push(a).push(b), locals, pc + 1),
                Result::Err(e) => FrameStep::Failed(e),
            },
            Result::Err(e) => FrameStep::Failed(e),
        },
        FatOp::Pop => match spec_pop(stack) {
            Result::Ok((_v, s)) => FrameStep::Next(s, locals, pc + 1),
            Result::Err(e) => FrameStep::Failed(e),
        },
        FatOp::Pop2 => match spec_pop(stack) {
            Result::Ok((_v, s1)) => match spec_pop(s1) {
                Result::Ok((_w, s2)) => FrameStep::Next(s2, locals, pc + 1),
                Result::Err(e) => FrameStep::Failed(e),
            },
            Result::Err(e) => FrameStep::Failed(e),
        },
        FatOp::Return => FrameStep::Returned(Value::Void),
        FatOp::IReturn => match spec_pop(stack) {
            Result::Ok((v, _s)) => FrameStep::Returned(v),
            Result::Err(e) => FrameStep::Failed(e),
        },
        FatOp::FReturn => match spec_pop(stack) {
            Result::Ok((v, _s)) => FrameStep::Returned(v),
            Result::Err(e) => FrameStep::Failed(e),
        },
        FatOp::AReturn => match spec_pop(stack) {
            Result::Ok((v, _s)) => FrameStep::Returned(v),
            Result::Err(e) => FrameStep::Failed(e),
        },
        _ => FrameStep::Beyond,
    }
}

/// The binary integer operations of the frame fragment: both operands are
/// popped and the 32-bit result is pushed, with wrapping arithmetic,
/// truncating division and remainder, and shift distances masked to five
/// bits.
pub open spec fn spec_int_binop(
    stack: Seq<Value>,
    locals: Seq<Value>,
    pc: int,
    op: FatOp,
) -> FrameStep {
    match spec_pop_int(stack) {
        Result::Ok((b, s1)) => match spec_pop_int(s1) {
            Result::Ok((a, s2)) => match op {
                FatOp::IAdd => FrameStep::Next(
                    s2.push(Value::Int(a.wrapping_add(b))),
                    locals,
                    pc + 1,
                ),
                FatOp::ISub => FrameStep::Next(
                    s2.push(Value::Int(a.wrapping_sub(b))),
                    locals,
                    pc + 1,
                ),
                FatOp::IMul => FrameStep::Next(
                    s2.push(Value::Int(a.wrapping_mul(b))),
                    locals,
                    pc + 1,
                ),
                FatOp::IDiv => match spec_idiv(a, b) {
                    Result::Ok(q) => FrameStep::Next(s2.push(Value::Int(q)), locals, pc + 1),
                    Result::Err(e) => FrameStep::Failed(e),
                },
                FatOp::IRem => match spec_irem(a, b) {
                    Result::Ok(q) => FrameStep::Next(s2.push(Value::Int(q)), locals, pc + 1),
                    Result::Err(e) => FrameStep::Failed(e),
                },
                FatOp::IAnd => FrameStep::Next(s2.push(Value::Int(a & b)), locals, pc + 1),
                FatOp::IOr => FrameStep::Next(s2.push(Value::Int(a | b)), locals, pc + 1),
                FatOp::IXOr => FrameStep::Next(s2.push(Value::Int(a ^ b)), locals, pc + 1),
                FatOp::IShl => FrameStep::Next(
                    s2.push(Value::Int(a.wrapping_shl(spec_shift(b)))),
                    locals,
                    pc + 1,
                ),
                FatOp::IShr => FrameStep::Next(
                    s2.push(Value::Int(a.wrapping_shr(spec_shift(b)))),
                    locals,
                    pc + 1,
                ),
                FatOp::IUShr => FrameStep::Next(
                    s2.push(Value::Int((((a as u32) >> spec_shift(b))) as i32)),
                    locals,
                    pc + 1,
                ),
                _ => FrameStep::Beyond,
            },
            Result::Err(e) => FrameStep::Failed(e),
        },
        Result::Err(e) => FrameStep::Failed(e),
    }
}

/// The conditional branches that compare two integer operands: the branch is
/// taken exactly when the comparison of the deeper operand against the top
/// holds.
pub open spec fn spec_int_branch(
    stack: Seq<Value>,
    locals: Seq<Value>,
    pc: int,
    op: FatOp,
) -> FrameStep {
    match spec_pop_int(stack) {
        Result::Ok((b, s1)) => match spec_pop_int(s1) {
            Result::Ok((a, s2)) => {
                let taken = match op {
                    FatOp::IfICmpEq(_) => a == b,
                    FatOp::IfICmpNe(_) => a != b,
                    FatOp::IfICmpLess(_) => a < b,
                    FatOp::IfICmpLessEqual(_) => a <= b,
                    FatOp::IfICmpGreater(_) => a > b,
                    FatOp::IfIGreterEqual(_) => a >= b,
                    _ => false,
                };
                let target = match op {
                    FatOp::IfICmpEq(t) => t as int,
                    FatOp::IfICmpNe(t) => t as int,
                    FatOp::IfICmpLess(t) => t as int,
                    FatOp::IfICmpLessEqual(t) => t as int,
                    FatOp::IfICmpGreater(t) => t as int,
                    FatOp::IfIGreterEqual(t) => t as int,
                    _ => pc + 1,
                };
                FrameStep::Next(
                    s2,
                    locals,
                    if taken {
                        target
                    } else {
                        pc + 1
                    },
                )
            },
            Result::Err(e) => FrameStep::Failed(e),
        },
        Result::Err(e) => FrameStep::Failed(e),
    }
}

/// The conditional branches that compare one integer operand against zero.
pub open spec fn spec_zero_branch(
    stack: Seq<Value>,
    locals: Seq<Value>,
    pc: int,
    op: FatOp,
) -> FrameStep {
    match spec_pop_int(stack) {
        Result::Ok((a, s)) => {
            let taken = match op {
                FatOp::IfZero(_) => a == 0,
                FatOp::IfNotZero(_) => a != 0,
                FatOp::IfLessZero(_) => a < 0,
                FatOp::IfLessEqualZero(_) => a <= 0,
                FatOp::IfGreterZero(_) => a > 0,
                FatOp::IfGreterEqualZero(_) => a >= 0,
                _ => false,
            };
            let target = match op {
                FatOp::IfZero(t) => t as int,
                FatOp::IfNotZero(t) => t as int,
                FatOp::IfLessZero(t) => t as int,
                FatOp::IfLessEqualZero(t) => t as int,
                FatOp::IfGreterZero(t) => t as int,
                FatOp::IfGreterEqualZero(t) => t as int,
                _ => pc + 1,
            };
            FrameStep::Next(
                s,
                locals,
                if taken {
                    target
                } else {
                    pc + 1
                },
            )
        },
        Result::Err(e) => FrameStep::Failed(e),
    }
}

/// What a frame-only run of a resolved-op sequence decides: a returned value
/// or a failure — or `Beyond`, when the run reaches an instruction outside
/// the frame fragment and the frame machine decides nothing.
pub enum FrameOutcome {
    Returned(Value),
    Failed(CallError),
    Beyond,
}

/// The big-step semantics of the frame fragment: steps from the given frame
/// until a return, a failure, the end of the code, exhausted fuel, or an
/// instruction beyond the fragment.
pub open spec fn frame_run(
    ops: Seq<FatOp>,
    stack: Seq<Value>,
    locals: Seq<Value>,
    pc: int,
    fuel: int,
) -> FrameOutcome
    decreases fuel,
{
    if fuel <= 0 {
        FrameOutcome::Failed(CallError::OutOfFuel)
    } else if pc < 0 || pc >= ops.len() {
        FrameOutcome::Failed(CallError::EndOfCode)
    } else {
        match frame_step(ops[pc], stack, locals, pc) {
            FrameStep::Next(s, l, p) => frame_run(ops, s, l, p, fuel - 1),
            FrameStep::Returned(v) => FrameOutcome::Returned(v),
            FrameStep::Failed(e) => FrameOutcome::Failed(e),
            FrameStep::Beyond => FrameOutcome::Beyond,
        }
    }
}

/// The local-variable frame a call starts from: the arguments, padded with
/// void values up to the declared slot count.
pub open spec fn pad_locals(args: Seq<Value>, n: int) -> Seq<Value> {
    if args.len() >= n {
        args
    } else {
        args + Seq::new((n - args.len()) as nat, |q: int| Value::Void)
    }
}

/// A body that loads one local slot and returns it yields exactly that
/// slot's value: dispatch hands back the chosen argument, whichever slot the
/// resolved load addresses.
pub proof fn lemma_pick_body_returns_the_slot(locals: Seq<Value>, k: u8, fuel: int)
    requires
        fuel >= 2,
        (k as int) < locals.len(),
    ensures
        frame_run(
            seq![FatOp::ILoad(k), FatOp::IReturn],
            Seq::<Value>::empty(),
            locals,
            0,
            fuel,
        ) == FrameOutcome::Returned(locals[k as int]),
{
    let body = seq![FatOp::ILoad(k), FatOp::IReturn];
    let s1 = Seq::<Value>::empty().push(locals[k as int]);
    assert(body[0] == FatOp::ILoad(k));
    assert(body[1] == FatOp::IReturn);
    assert(frame_step(body[0], Seq::<Value>::empty(), locals, 0) == FrameStep::Next(
        s1,
        locals,
        1,
    ));
    assert(spec_pop(s1) == Result::<(Value, Seq<Value>), CallError>::Ok(
        (locals[k as int], s1.drop_last()),
    ));
    assert(frame_step(body[1], s1, locals, 1) == FrameStep::Returned(locals[k as int]));
    assert(frame_run(body, Seq::<Value>::empty(), locals, 0, fuel) == frame_run(
        body,
        s1,
        locals,
        1,
        fuel - 1,
    ));
    assert(frame_run(body, s1, locals, 1, fuel - 1) == FrameOutcome::Returned(
        locals[k as int],
    ));
}

/// The two-argument arithmetic body — load both argument slots, apply one
/// integer operation, return — computes exactly that operation's value:
/// wrapping addition, subtraction and multiplication, truncating division and
/// remainder, and the divide-by-zero failure on a zero divisor.
pub proof fn lemma_arith_body_computes(op: FatOp, a: i32, b: i32, fuel: int)
    requires
        fuel >= 4,
        op == FatOp::IAdd || op == FatOp::ISub || op == FatOp::IMul || op == FatOp::IDiv || op
            == FatOp::IRem,
    ensures
        frame_run(
            seq![FatOp::ILoad(0), FatOp::ILoad(1), op, FatOp::IReturn],
            Seq::<Value>::empty(),
            seq![Value::Int(a), Value::Int(b)],
            0,
            fuel,
        ) == (match op {
            FatOp::IAdd => FrameOutcome::Returned(Value::Int(a.wrapping_add(b))),
            FatOp::ISub => FrameOutcome::Returned(Value::Int(a.wrapping_sub(b))),
            FatOp::IMul => FrameOutcome::Returned(Value::Int(a.wrapping_mul(b))),
            FatOp::IDiv => match spec_idiv(a, b) {
                Result::Ok(q) => FrameOutcome::Returned(Value::Int(q)),
                Result::Err(e) => FrameOutcome::Failed(e),
            },
            FatOp::IRem => match spec_irem(a, b) {
                Result::Ok(q) => FrameOutcome::Returned(Value::Int(q)),
                Result::Err(e) => FrameOutcome::Failed(e),
            },
            _ => FrameOutcome::Beyond,
        }),
{
    let body = seq![FatOp::ILoad(0), FatOp::ILoad(1), op, FatOp::IReturn];
    let locals = seq![Value::Int(a), Value::Int(b)];
    let s1 = Seq::<Value>::empty().push(Value::Int(a));
    let s2 = s1.push(Value::Int(b));
    assert(body[0] == FatOp::ILoad(0));
    assert(body[1] == FatOp::ILoad(1));
    assert(body[2] == op);
    assert(body[3] == FatOp::IReturn);
    assert(locals[0] == Value::Int(a));
    assert(locals[1] == Value::Int(b));
    assert(frame_step(body[0], Seq::<Value>::empty(), locals, 0) == FrameStep::Next(
        s1,
        locals,
        1,
    ));
    assert(frame_step(body[1], s1, locals, 1) == FrameStep::Next(s2, locals, 2));
    assert(s2.drop_last() =~= s1);
    assert(s1.drop_last() =~= Seq::<Value>::empty());
    assert(spec_pop_int(s2) == Result::<(i32, Seq<Value>), CallError>::Ok((b, s1)));
    assert(spec_pop_int(s1) == Result::<(i32, Seq<Value>), CallError>::Ok(
        (a, Seq::<Value>::empty()),
    ));
    let s3 = match op {
        FatOp::IAdd => Seq::<Value>::empty().push(Value::Int(a.wrapping_add(b))),
        FatOp::ISub => Seq::<Value>::empty().push(Value::Int(a.wrapping_sub(b))),
        FatOp::IMul => Seq::<Value>::empty().push(Value::Int(a.wrapping_mul(b))),
        FatOp::IDiv => match spec_idiv(a, b) {
            Result::Ok(q) => Seq::<Value>::empty().push(Value::Int(q)),
            Result::Err(_) => Seq::<Value>::empty(),
        },
        _ => match spec_irem(a, b) {
            Result::Ok(q) => Seq::<Value>::empty().push(Value::Int(q)),
            Result::Err(_) => Seq::<Value>::empty(),
        },
    };
    assert(frame_run(body, Seq::<Value>::empty(), locals, 0, fuel) == frame_run(
        body,
        s1,
        locals,
        1,
        fuel - 1,
    ));
    assert(frame_run(body, s1, locals, 1, fuel - 1) == frame_run(body, s2, locals, 2, fuel - 2));
    if op == FatOp::IDiv && spec_idiv(a, b) is Err {
        assert(frame_run(body, s2, locals, 2, fuel - 2) == FrameOutcome::Failed(
            CallError::DivisionByZero,
        ));
    } else if op == FatOp::IRem && spec_irem(a, b) is Err {
        assert(frame_run(body, s2, locals, 2, fuel - 2) == FrameOutcome::Failed(
            CallError::DivisionByZero,
        ));
    } else {
        assert(frame_step(body[2], s2, locals, 2) == FrameStep::Next(s3, locals, 3));
        assert(frame_run(body, s2, locals, 2, fuel - 2) == frame_run(
            body,
            s3,
            locals,
            3,
            fuel - 3,
        ));
        assert(spec_pop(s3) matches Result::Ok(p) && frame_step(body[3], s3, locals, 3)
            == FrameStep::Returned(p.0));
    }
}

/// Pops the top of the operand stack.
fn pop(stack: &mut Vec<Value>) -> (r: Result<Value, CallError>)
    ensures
        match r {
            Result::Ok(v) => old(stack)@.len() > 0 && v == old(stack)@.last() && final(stack)@
                == old(stack)@.drop_last(),
            Result::Err(e) => e == CallError::StackUnderflow && old(stack)@.len() == 0 && final(stack)@ == old(stack)@,
        },
{
    match stack.pop() {
        Some(v) => Ok(v),
        None => Err(CallError::StackUnderflow),
    }
}

/// Pops an integer operand; any other operand kind is consumed and reported.
fn pop_int(stack: &mut Vec<Value>) -> (r: Result<i32, CallError>)
    ensures
        old(stack)@.len() == 0 ==> r == Err::<i32, CallError>(CallError::StackUnderflow) && final(stack)@ == old(stack)@,
        old(stack)@.len() > 0 ==> final(stack)@ == old(stack)@.drop_last() && r == (
        match old(stack)@.last() {
            Value::Int(v) => Ok::<i32, CallError>(v),
            _ => Err::<i32, CallError>(CallError::OperandType),
        }),
{
    match pop(stack) {
        Ok(Value::Int(v)) => Ok(v),
        Ok(_) => Err(CallError::OperandType),
        Err(e) => Err(e),
    }
}

/// Pops an object-reference operand; any other operand kind is consumed and
/// reported.
fn pop_ref(stack: &mut Vec<Value>) -> (r: Result<usize, CallError>)
    ensures
        old(stack)@.len() == 0 ==> r == Err::<usize, CallError>(CallError::StackUnderflow)
            && final(stack)@ == old(stack)@,
        old(stack)@.len() > 0 ==> final(stack)@ == old(stack)@.drop_last() && r == (
        match old(stack)@.last() {
            Value::ObjectRef(h) => Ok::<usize, CallError>(h),
            _ => Err::<usize, CallError>(CallError::OperandType),
        }),
{
    match pop(stack) {
        Ok(Value::ObjectRef(h)) => Ok(h),
        Ok(_) => Err(CallError::OperandType),
        Err(e) => Err(e),
    }
}

/// Pops the top `n` operands as a call-argument frame, in push order: the
/// deepest popped value comes first.
fn pop_n(stack: &mut Vec<Value>, n: usize) -> (r: Result<Vec<Value>, CallError>)
    ensures
        match r {
            Result::Ok(v) => old(stack)@.len() >= n && v@ == old(stack)@.skip(
                old(stack)@.len() - n as int,
            ) && final(stack)@ == old(stack)@.take(old(stack)@.len() - n as int),
            Result::Err(e) => e == CallError::StackUnderflow && old(stack)@.len() < n && final(stack)@ == old(stack)@,
        },
{
    if stack.len() < n {
        return Err(CallError::StackUnderflow);
    }
    let at = stack.len() - n;
    let tail = stack.split_off(at);
    Ok(tail)
}

/// The truncating 32-bit quotient, with the single wrapping case of the most
/// negative dividend.
fn idiv(a: i32, b: i32) -> (r: Result<i32, CallError>)
    ensures
        r == spec_idiv(a, b),
{
    if b == 0 {
        return Err(CallError::DivisionByZero);
    }
    if a == i32::MIN && b == -1 {
        return Ok(i32::MIN);
    }
    match a.checked_div(b) {
        Some(q) => Ok(q),
        None => Err(CallError::DivisionByZero),
    }
}

/// The truncating 32-bit remainder, with the single wrapping case of the most
/// negative dividend.
fn irem(a: i32, b: i32) -> (r: Result<i32, CallError>)
    ensures
        r == spec_irem(a, b),
{
    if b == 0 {
        return Err(CallError::DivisionByZero);
    }
    if a == i32::MIN && b == -1 {
        return Ok(0);
    }
    match a.checked_rem(b) {
        Some(q) => Ok(q),
        None => Err(CallError::DivisionByZero),
    }
}

/// Looks up a method handle and runs its current executable form: an
/// interpreted body against a fresh frame, or the registered native. The
/// registry is read-only during execution; the heap tables only grow.
pub fn call_method<N: NativeMethods>(
    classes: &CodeContainer,
    heap: &mut ObjectHeap,
    natives: &mut N,
    method: usize,
    args: Vec<Value>,
    depth: u32,
    fuel: u64,
) -> (r: Result<Value, CallError>)
    ensures
        final(heap).spec_objects().len() >= old(heap).spec_objects().len(),
        final(heap).spec_statics().len() >= old(heap).spec_statics().len(),
        method >= classes.spec_methods().len() ==> r == Err::<Value, CallError>(
            CallError::MethodNotFound,
        ),
        method < classes.spec_methods().len() && classes.spec_methods()[method as int] is Missing
            ==> r == Err::<Value, CallError>(CallError::MethodNotFound),
        method < classes.spec_methods().len() ==> match classes.spec_methods()[method as int] {
            MethodImpl::Interpreted { ops: o, max_locals: ml } => {
                &&& (fuel == 0 ==> r == Err::<Value, CallError>(CallError::OutOfFuel))
                &&& (fuel > 0 && o@.len() == 0 ==> r == Err::<Value, CallError>(
                    CallError::EndOfCode,
                ))
                &&& (frame_run(
                    o@,
                    Seq::<Value>::empty(),
                    pad_locals(args@, ml as int),
                    0,
                    fuel as int,
                ) matches FrameOutcome::Returned(v) ==> r == Ok::<Value, CallError>(v))
                &&& (frame_run(
                    o@,
                    Seq::<Value>::empty(),
                    pad_locals(args@, ml as int),
                    0,
                    fuel as int,
                ) matches FrameOutcome::Failed(e) ==> r == Err::<Value, CallError>(e))
            },
            _ => true,
        },
    decreases depth, 1int,
{
    match classes.method_at(method) {
        None => Err(CallError::MethodNotFound),
        Some(m) => match m {
            MethodImpl::Missing => Err(CallError::MethodNotFound),
            MethodImpl::Interpreted { ops, max_locals } => exec_ops(
                classes,
                heap,
                natives,
                ops,
                *max_locals,
                args,
                depth,
                fuel,
            ),
            MethodImpl::Native => natives.call_native(method, &args, heap),
        },
    }
}

/// Walks one resolved-op sequence against a frame of locals and an operand
/// stack. Control transfers assign the next instruction index directly; no
/// offset arithmetic is left at this stage. Each instruction costs one unit
/// of `fuel`; a nested call costs one unit of `depth`.
///
/// The integer, reference, array, field, stack-shuffle, branch and call
/// instructions execute. Arithmetic, comparison and conversion on long,
/// double or float values (beyond moving their raw bits) and invoke-dynamic
/// answer the unsupported-op failure: the value model carries no 64-bit
/// slots, and floats stay outside the verified fragment.
///
/// The frame-only fragment is specified by `frame_run`: whenever that
/// machine decides a run of the body, the interpreter returns exactly its
/// outcome. An instruction that reaches the heap, the registry or a callee
/// leaves the machine's scope, and only the per-instruction contracts of the
/// helpers below, the heap-growth bound and the typed failures speak for the
/// rest of such a run.
#[verifier::rlimit(100)]
#[verifier::spinoff_prover]
fn exec_ops<N: NativeMethods>(
    classes: &CodeContainer,
    heap: &mut ObjectHeap,
    natives: &mut N,
    ops: &Vec<FatOp>,
    max_locals: u16,
    args: Vec<Value>,
    depth: u32,
    fuel: u64,
) -> (r: Result<Value, CallError>)
    ensures
        final(heap).spec_objects().len() >= old(heap).spec_objects().len(),
        final(heap).spec_statics().len() >= old(heap).spec_statics().len(),
        fuel == 0 ==> r == Err::<Value, CallError>(CallError::OutOfFuel),
        fuel > 0 && ops@.len() == 0 ==> r == Err::<Value, CallError>(CallError::EndOfCode),
        frame_run(
            ops@,
            Seq::<Value>::empty(),
            pad_locals(args@, max_locals as int),
            0,
            fuel as int,
        ) matches FrameOutcome::Returned(v) ==> r == Ok::<Value, CallError>(v),
        frame_run(
            ops@,
            Seq::<Value>::empty(),
            pad_locals(args@, max_locals as int),
            0,
            fuel as int,
        ) matches FrameOutcome::Failed(e) ==> r == Err::<Value, CallError>(e),
    decreases depth, 0int,
{
    let ghost args0 = args@;
    let mut locals = args;
    while locals.len() < max_locals as usize
        invariant
            args0.len() <= locals@.len(),
            locals@.take(args0.len() as int) == args0,
            forall|q: int| args0.len() <= q < locals@.len() ==> locals@[q] == Value::Void,
            locals@.len() == args0.len() || locals@.len() <= max_locals,
        decreases max_locals as int - locals@.len(),
    {
        proof {
            assert(locals@.push(Value::Void).take(args0.len() as int) =~= locals@.take(
                args0.len() as int,
            ));
        }
        locals.push(Value::Void);
    }
    proof {
        assert(locals@ =~= pad_locals(args0, max_locals as int));
    }
    let ghost locals0 = locals@;
    let mut stack: Vec<Value> = Vec::new();
    let mut pc: usize = 0;
    let mut f = fuel;
    while f > 0
        invariant
            heap.spec_objects().len() >= old(heap).spec_objects().len(),
            heap.spec_statics().len() >= old(heap).spec_statics().len(),
            f <= fuel,
            ops@.len() == 0 ==> f == fuel,
            locals0 == pad_locals(args@, max_locals as int),
            frame_run(ops@, Seq::<Value>::empty(), locals0, 0, fuel as int) == frame_run(
                ops@,
                stack@,
                locals@,
                pc as int,
                f as int,
            ) || frame_run(ops@, Seq::<Value>::empty(), locals0, 0, fuel as int)
                == FrameOutcome::Beyond,
        decreases f,
    {
        if pc >= ops.len() {
            proof {
                assert(frame_run(ops@, stack@, locals@, pc as int, f as int)
                    == FrameOutcome::Failed(CallError::EndOfCode));
            }
            return Err(CallError::EndOfCode);
        }
        f = f - 1;
        let mut next = pc + 1;
        match &ops[pc] {
            FatOp::AConstNull => {
                stack.push(Value::ObjectRef(0));
            },
            FatOp::IConst(v) => {
                stack.push(Value::Int(*v));
            },
            FatOp::BConst(v) => {
                stack.push(Value::Int(*v as i32));
            },
            FatOp::SConst(v) => {
                stack.push(Value::Int(*v as i32));
            },
            FatOp::FConst(bits) => {
                stack.push(Value::Float(*bits));
            },
            FatOp::StringConst(s) => {
                let h = heap.new_string(s.clone());
                stack.push(Value::ObjectRef(h));
            },
            FatOp::ClassConst(ci) => {
                let h = heap.new_string(ci.cpp_class().to_owned());
                stack.push(Value::ObjectRef(h));
            },
            FatOp::ALoad(i) => {
                let idx = *i as usize;
                if idx >= locals.len() {
                    return Err(CallError::BadLocal);
                }
                stack.push(locals[idx]);
            },
            FatOp::ILoad(i) => {
                let idx = *i as usize;
                if idx >= locals.len() {
                    return Err(CallError::BadLocal);
                }
                stack.push(locals[idx]);
            },
            FatOp::FLoad(i) => {
                let idx = *i as usize;
                if idx >= locals.len() {
                    return Err(CallError::BadLocal);
                }
                stack.push(locals[idx]);
            },
            FatOp::AStore(i) => {
                let idx = *i as usize;
                if idx >= locals.len() {
                    return Err(CallError::BadLocal);
                }
                let v = pop(&mut stack)?;
                locals[idx] = v;
            },
            FatOp::IStore(i) => {
                let idx = *i as usize;
                if idx >= locals.len() {
                    return Err(CallError::BadLocal);
                }
                let v = pop(&mut stack)?;
                locals[idx] = v;
            },
            FatOp::FStore(i) => {
                let idx = *i as usize;
                if idx >= locals.len() {
                    return Err(CallError::BadLocal);
                }
                let v = pop(&mut stack)?;
                locals[idx] = v;
            },
            FatOp::IAdd => {
                let b = pop_int(&mut stack)?;
                let a = pop_int(&mut stack)?;
                stack.push(Value::Int(a.wrapping_add(b)));
            },
            FatOp::ISub => {
                let b = pop_int(&mut stack)?;
                let a = pop_int(&mut stack)?;
                stack.push(Value::Int(a.wrapping_sub(b)));
            },
            FatOp::IMul => {
                let b = pop_int(&mut stack)?;
                let a = pop_int(&mut stack)?;
                stack.push(Value::Int(a.wrapping_mul(b)));
            },
            FatOp::IDiv => {
                let b = pop_int(&mut stack)?;
                let a = pop_int(&mut stack)?;
                let q = idiv(a, b)?;
                stack.push(Value::Int(q));
            },
            FatOp::IRem => {
                let b = pop_int(&mut stack)?;
                let a = pop_int(&mut stack)?;
                let q = irem(a, b)?;
                stack.push(Value::Int(q));
            },
            FatOp::INeg => {
                let a = pop_int(&mut stack)?;
                stack.push(Value::Int(0i32.wrapping_sub(a)));
            },
            FatOp::IAnd => {
                let b = pop_int(&mut stack)?;
                let a = pop_int(&mut stack)?;
                stack.push(Value::Int(a & b));
            },
            FatOp::IOr => {
                let b = pop_int(&mut stack)?;
                let a = pop_int(&mut stack)?;
                stack.push(Value::Int(a | b));
            },
            FatOp::IXOr => {
                let b = pop_int(&mut stack)?;
                let a = pop_int(&mut stack)?;
                stack.push(Value::Int(a ^ b));
            },
            FatOp::IShl => {
                let b = pop_int(&mut stack)?;
                let a = pop_int(&mut stack)?;
                let sh: u32 = (#[verifier::truncate] (b as u32)) % 32;
                stack.push(Value::Int(a.wrapping_shl(sh)));
            },
            FatOp::IShr => {
                let b = pop_int(&mut stack)?;
                let a = pop_int(&mut stack)?;
                let sh: u32 = (#[verifier::truncate] (b as u32)) % 32;
                stack.push(Value::Int(a.wrapping_shr(sh)));
            },
            FatOp::IUShr => {
                let b = pop_int(&mut stack)?;
                let a = pop_int(&mut stack)?;
                let sh: u32 = (#[verifier::truncate] (b as u32)) % 32;
                let bits: u32 = #[verifier::truncate] (a as u32);
                let shifted: u32 = bits >> sh;
                stack.push(Value::Int(#[verifier::truncate] (shifted as i32)));
            },
            FatOp::IInc(i, delta) => {
                let idx = *i as usize;
                if idx >= locals.len() {
                    return Err(CallError::BadLocal);
                }
                match locals[idx] {
                    Value::Int(v) => {
                        locals[idx] = Value::Int(v.wrapping_add(*delta as i32));
                    },
                    _ => {
                        return Err(CallError::OperandType);
                    },
                }
            },
            FatOp::I2B => {
                let a = pop_int(&mut stack)?;
                let t: i8 = #[verifier::truncate] (a as i8);
                stack.push(Value::Int(t as i32));
            },
            FatOp::I2C => {
                let a = pop_int(&mut stack)?;
                let t: u16 = #[verifier::truncate] (a as u16);
                stack.push(Value::Int(t as i32));
            },
            FatOp::I2S => {
                let a = pop_int(&mut stack)?;
                let t: i16 = #[verifier::truncate] (a as i16);
                stack.push(Value::Int(t as i32));
            },
            FatOp::IfICmpEq(t) => {
                let b = pop_int(&mut stack)?;
                let a = pop_int(&mut stack)?;
                if a == b {
                    next = *t;
                }
            },
            FatOp::IfICmpNe(t) => {
                let b = pop_int(&mut stack)?;
                let a = pop_int(&mut stack)?;
                if a != b {
                    next = *t;
                }
            },
            FatOp::IfICmpLess(t) => {
                let b = pop_int(&mut stack)?;
                let a = pop_int(&mut stack)?;
                if a < b {
                    next = *t;
                }
            },
            FatOp::IfICmpLessEqual(t) => {
                let b = pop_int(&mut stack)?;
                let a = pop_int(&mut stack)?;
                if a <= b {
                    next = *t;
                }
            },
            FatOp::IfICmpGreater(t) => {
                let b = pop_int(&mut stack)?;
                let a = pop_int(&mut stack)?;
                if a > b {
                    next = *t;
                }
            },
            FatOp::IfIGreterEqual(t) => {
                let b = pop_int(&mut stack)?;
                let a = pop_int(&mut stack)?;
                if a >= b {
                    next = *t;
                }
            },
            FatOp::IfZero(t) => {
                let a = pop_int(&mut stack)?;
                if a == 0 {
                    next = *t;
                }
            },
            FatOp::IfNotZero(t) => {
                let a = pop_int(&mut stack)?;
                if a != 0 {
                    next = *t;
                }
            },
            FatOp::IfLessZero(t) => {
                let a = pop_int(&mut stack)?;
                if a < 0 {
                    next = *t;
                }
            },
            FatOp::IfLessEqualZero(t) => {
                let a = pop_int(&mut stack)?;
                if a <= 0 {
                    next = *t;
                }
            },
            FatOp::IfGreterZero(t) => {
                let a = pop_int(&mut stack)?;
                if a > 0 {
                    next = *t;
                }
            },
            FatOp::IfGreterEqualZero(t) => {
                let a = pop_int(&mut stack)?;
                if a >= 0 {
                    next = *t;
                }
            },
            FatOp::IfNull(t) => {
                let h = pop_ref(&mut stack)?;
                if h == 0 {
                    next = *t;
                }
            },
            FatOp::IfNotNull(t) => {
                let h = pop_ref(&mut stack)?;
                if h != 0 {
                    next = *t;
                }
            },
            FatOp::IfACmpEq(t) => {
                let b = pop_ref(&mut stack)?;
                let a = pop_ref(&mut stack)?;
                if a == b {
                    next = *t;
                }
            },
            FatOp::IfACmpNe(t) => {
                let b = pop_ref(&mut stack)?;
                let a = pop_ref(&mut stack)?;
                if a != b {
                    next = *t;
                }
            },
            FatOp::GoTo(t) => {
                next = *t;
            },
            FatOp::LookupSwitch { default_op, pairs } => {
                let key = pop_int(&mut stack)?;
                let mut target = *default_op;
                let mut k: usize = 0;
                let mut found = false;
                proof {
                    assert(frame_run(ops@, Seq::<Value>::empty(), locals0, 0, fuel as int)
                        == FrameOutcome::Beyond);
                }
                while k < pairs.len() && !found
                    invariant
                        k <= pairs@.len(),
                        fuel > 0,
                        ops@.len() > 0,
                        heap.spec_objects().len() >= old(heap).spec_objects().len(),
                        heap.spec_statics().len() >= old(heap).spec_statics().len(),
                        locals0 == pad_locals(args@, max_locals as int),
                        frame_run(ops@, Seq::<Value>::empty(), locals0, 0, fuel as int)
                            == FrameOutcome::Beyond,
                    decreases pairs@.len() - k,
                {
                    if pairs[k].0 == key {
                        target = pairs[k].1;
                        found = true;
                    }
                    k = k + 1;
                }
                next = target;
            },
            FatOp::Dup => {
                if stack.len() == 0 {
                    return Err(CallError::StackUnderflow);
                }
                let a = stack[stack.len() - 1];
                stack.push(a);
            },
            FatOp::Dup2 => {
                if stack.len() < 2 {
                    return Err(CallError::StackUnderflow);
                }
                let a = stack[stack.len() - 1];
                let b = stack[stack.len() - 2];
                stack.push(b);
                stack.push(a);
            },
            FatOp::DupX1 => {
                let a = pop(&mut stack)?;
                let b = pop(&mut stack)?;
                stack.push(a);
                stack.push(b);
                stack.push(a);
            },
            FatOp::DupX2 => {
                let a = pop(&mut stack)?;
                let b = pop(&mut stack)?;
                let c = pop(&mut stack)?;
                stack.push(a);
                stack.push(c);
                stack.push(b);
                stack.push(a);
            },
            FatOp::Dup2X1 => {
                let a = pop(&mut stack)?;
                let b = pop(&mut stack)?;
                let c = pop(&mut stack)?;
                stack.push(b);
                stack.push(a);
                stack.push(c);
                stack.push(b);
                stack.push(a);
            },
            FatOp::Dup2X2 => {
                let a = pop(&mut stack)?;
                let b = pop(&mut stack)?;
                let c = pop(&mut stack)?;
                let d = pop(&mut stack)?;
                stack.push(b);
                stack.push(a);
                stack.push(d);
                stack.push(c);
                stack.push(b);
                stack.push(a);
            },
            FatOp::Swap => {
                let a = pop(&mut stack)?;
                let b = pop(&mut stack)?;
                stack.push(a);
                stack.push(b);
            },
            FatOp::Pop => {
                let _ = pop(&mut stack)?;
            },
            FatOp::Pop2 => {
                let _ = pop(&mut stack)?;
                let _ = pop(&mut stack)?;
            },
            FatOp::Return => {
                return Ok(Value::Void);
            },
            FatOp::IReturn => {
                let v = pop(&mut stack)?;
                return Ok(v);
            },
            FatOp::FReturn => {
                let v = pop(&mut stack)?;
                return Ok(v);
            },
            FatOp::AReturn => {
                let v = pop(&mut stack)?;
                return Ok(v);
            },
            FatOp::IGetStatic(ci, name) => {
                let v = read_static(classes, heap, ci.cpp_class(), name.as_str())?;
                stack.push(v);
            },
            FatOp::ZGetStatic(ci, name) => {
                let v = read_static(classes, heap, ci.cpp_class(), name.as_str())?;
                stack.push(v);
            },
            FatOp::BGetStatic(ci, name) => {
                let v = read_static(classes, heap, ci.cpp_class(), name.as_str())?;
                stack.push(v);
            },
            FatOp::SGetStatic(ci, name) => {
                let v = read_static(classes, heap, ci.cpp_class(), name.as_str())?;
                stack.push(v);
            },
            FatOp::CGetStatic(ci, name) => {
                let v = read_static(classes, heap, ci.cpp_class(), name.as_str())?;
                stack.push(v);
            },
            FatOp::FGetStatic(ci, name) => {
                let v = read_static(classes, heap, ci.cpp_class(), name.as_str())?;
                stack.push(v);
            },
            FatOp::AGetStatic { class_info, static_name, type_info } => {
                let v = read_static(classes, heap, class_info.cpp_class(), static_name.as_str())?;
                stack.push(v);
            },
            FatOp::AAGetStatic { class_info, static_name, atype } => {
                let v = read_static(classes, heap, class_info.cpp_class(), static_name.as_str())?;
                stack.push(v);
            },
            FatOp::IPutStatic(ci, name) => {
                let v = pop(&mut stack)?;
                write_static(classes, heap, ci.cpp_class(), name.as_str(), v)?;
            },
            FatOp::ZPutStatic(ci, name) => {
                let v = pop(&mut stack)?;
                write_static(classes, heap, ci.cpp_class(), name.as_str(), v)?;
            },
            FatOp::BPutStatic(ci, name) => {
                let v = pop(&mut stack)?;
                write_static(classes, heap, ci.cpp_class(), name.as_str(), v)?;
            },
            FatOp::SPutStatic(ci, name) => {
                let v = pop(&mut stack)?;
                write_static(classes, heap, ci.cpp_class(), name.as_str(), v)?;
            },
            FatOp::CPutStatic(ci, name) => {
                let v = pop(&mut stack)?;
                write_static(classes, heap, ci.cpp_class(), name.as_str(), v)?;
            },
            FatOp::FPutStatic(ci, name) => {
                let v = pop(&mut stack)?;
                write_static(classes, heap, ci.cpp_class(), name.as_str(), v)?;
            },
            FatOp::APutStatic { class_info, field_name, type_info } => {
                let v = pop(&mut stack)?;
                write_static(classes, heap, class_info.cpp_class(), field_name.as_str(), v)?;
            },
            FatOp::AAPutStatic { class_info, field_name, atype } => {
                let v = pop(&mut stack)?;
                write_static(classes, heap, class_info.cpp_class(), field_name.as_str(), v)?;
            },
            FatOp::IGetField(ci, name) => {
                let v = read_field(classes, heap, &mut stack, name.as_str())?;
                stack.push(v);
            },
            FatOp::ZGetField(ci, name) => {
                let v = read_field(classes, heap, &mut stack, name.as_str())?;
                stack.push(v);
            },
            FatOp::BGetField(ci, name) => {
                let v = read_field(classes, heap, &mut stack, name.as_str())?;
                stack.push(v);
            },
            FatOp::SGetField(ci, name) => {
                let v = read_field(classes, heap, &mut stack, name.as_str())?;
                stack.push(v);
            },
            FatOp::CGetField(ci, name) => {
                let v = read_field(classes, heap, &mut stack, name.as_str())?;
                stack.push(v);
            },
            FatOp::FGetField(ci, name) => {
                let v = read_field(classes, heap, &mut stack, name.as_str())?;
                stack.push(v);
            },
            FatOp::AGetField { class_info, field_name, type_info } => {
                let v = read_field(classes, heap, &mut stack, field_name.as_str())?;
                stack.push(v);
            },
            FatOp::AAGetField { class_info, field_name, atype } => {
                let v = read_field(classes, heap, &mut stack, field_name.as_str())?;
                stack.push(v);
            },
            FatOp::IPutField(ci, name) => {
                write_field(classes, heap, &mut stack, name.as_str())?;
            },
            FatOp::ZPutField(ci, name) => {
                write_field(classes, heap, &mut stack, name.as_str())?;
            },
            FatOp::BPutField(ci, name) => {
                write_field(classes, heap, &mut stack, name.as_str())?;
            },
            FatOp::SPutField(ci, name) => {
                write_field(classes, heap, &mut stack, name.as_str())?;
            },
            FatOp::CPutField(ci, name) => {
                write_field(classes, heap, &mut stack, name.as_str())?;
            },
            FatOp::FPutField(ci, name) => {
                write_field(classes, heap, &mut stack, name.as_str())?;
            },
            FatOp::APutField { class_info, field_name, type_info } => {
                write_field(classes, heap, &mut stack, field_name.as_str())?;
            },
            FatOp::AAPutField { class_info, field_name, atype } => {
                write_field(classes, heap, &mut stack, field_name.as_str())?;
            },
            FatOp::New(ci) => {
                let class_h = match classes.lookup_class(ci.cpp_class()) {
                    Some(h) => h,
                    None => {
                        return Err(CallError::MissingClass);
                    },
                };
                if class_h >= classes.class_count() {
                    return Err(CallError::MissingClass);
                }
                let field_count = classes.class_at(class_h).fields.len();
                let h = heap.new_obj(class_h, field_count);
                stack.push(Value::ObjectRef(h));
            },
            FatOp::ANewArray(ci) => {
                let len = pop_int(&mut stack)?;
                if len < 0 {
                    return Err(CallError::NegativeArraySize);
                }
                let h = heap.new_array(Value::ObjectRef(0), len as usize);
                stack.push(Value::ObjectRef(h));
            },
            FatOp::ZNewArray => {
                let h = new_prim_array(heap, &mut stack, Value::Int(0))?;
                stack.push(Value::ObjectRef(h));
            },
            FatOp::BNewArray => {
                let h = new_prim_array(heap, &mut stack, Value::Int(0))?;
                stack.push(Value::ObjectRef(h));
            },
            FatOp::CNewArray => {
                let h = new_prim_array(heap, &mut stack, Value::Int(0))?;
                stack.push(Value::ObjectRef(h));
            },
            FatOp::SNewArray => {
                let h = new_prim_array(heap, &mut stack, Value::Int(0))?;
                stack.push(Value::ObjectRef(h));
            },
            FatOp::INewArray => {
                let h = new_prim_array(heap, &mut stack, Value::Int(0))?;
                stack.push(Value::ObjectRef(h));
            },
            FatOp::FNewArray => {
                let h = new_prim_array(heap, &mut stack, Value::Float(0))?;
                stack.push(Value::ObjectRef(h));
            },
            FatOp::CheckedCast(ci) => {
                let h = pop_ref(&mut stack)?;
                if h == 0 {
                    stack.push(Value::ObjectRef(0));
                } else {
                    if !instance_of(classes, heap, h, ci.cpp_class())? {
                        return Err(CallError::ClassCast);
                    }
                    stack.push(Value::ObjectRef(h));
                }
            },
            FatOp::InstanceOf(ci) => {
                let h = pop_ref(&mut stack)?;
                if h == 0 {
                    stack.push(Value::Int(0));
                } else {
                    let yes = instance_of(classes, heap, h, ci.cpp_class())?;
                    stack.push(Value::Int(if yes { 1 } else { 0 }));
                }
            },
            FatOp::ArrayLength => {
                let h = pop_ref(&mut stack)?;
                if h == 0 {
                    return Err(CallError::NullPointer);
                }
                if h >= heap.object_count() {
                    return Err(CallError::BadHandle);
                }
                let len = match heap.array_length(h) {
                    Some(len) => len,
                    None => {
                        return Err(CallError::OperandType);
                    },
                };
                if len > i32::MAX as usize {
                    return Err(CallError::UnsupportedOp);
                }
                stack.push(Value::Int(len as i32));
            },
            FatOp::IALoad => {
                let v = array_load(heap, &mut stack)?;
                stack.push(v);
            },
            FatOp::BALoad => {
                let v = array_load(heap, &mut stack)?;
                stack.push(v);
            },
            FatOp::CALoad => {
                let v = array_load(heap, &mut stack)?;
                stack.push(v);
            },
            FatOp::SALoad => {
                let v = array_load(heap, &mut stack)?;
                stack.push(v);
            },
            FatOp::FALoad => {
                let v = array_load(heap, &mut stack)?;
                stack.push(v);
            },
            FatOp::AALoad => {
                let v = array_load(heap, &mut stack)?;
                stack.push(v);
            },
            FatOp::IAStore => {
                array_store(heap, &mut stack)?;
            },
            FatOp::BAStore => {
                array_store(heap, &mut stack)?;
            },
            FatOp::CAStore => {
                array_store(heap, &mut stack)?;
            },
            FatOp::SAStore => {
                array_store(heap, &mut stack)?;
            },
            FatOp::FAStore => {
                array_store(heap, &mut stack)?;
            },
            FatOp::AAStore => {
                array_store(heap, &mut stack)?;
            },
            FatOp::MonitorEnter => {
                let h = pop_ref(&mut stack)?;
                if h == 0 {
                    return Err(CallError::NullPointer);
                }
            },
            FatOp::MonitorExit => {
                let h = pop_ref(&mut stack)?;
                if h == 0 {
                    return Err(CallError::NullPointer);
                }
            },
            FatOp::Throw => {
                let h = pop_ref(&mut stack)?;
                if h == 0 {
                    return Err(CallError::NullPointer);
                }
                return Err(CallError::Thrown(h));
            },
            FatOp::InvokeStatic(ci, mangled, argtypes, _ret) => {
                let callargs = pop_n(&mut stack, argtypes.len())?;
                let full = full_mangled(ci.cpp_class(), mangled.as_str());
                let mh = match classes.lookup_method(full.as_str()) {
                    Some(h) => h,
                    None => {
                        return Err(CallError::MethodNotFound);
                    },
                };
                if depth == 0 {
                    return Err(CallError::CallDepthExceeded);
                }
                let rv = call_method(classes, heap, natives, mh, callargs, depth - 1, fuel)?;
                match rv {
                    Value::Void => {},
                    v => {
                        stack.push(v);
                    },
                }
            },
            FatOp::InvokeSpecial(ci, mangled, argc) => {
                let callargs = pop_n(&mut stack, *argc as usize + 1)?;
                let full = full_mangled(ci.cpp_class(), mangled.as_str());
                let mh = match classes.lookup_method(full.as_str()) {
                    Some(h) => h,
                    None => {
                        return Err(CallError::MethodNotFound);
                    },
                };
                if depth == 0 {
                    return Err(CallError::CallDepthExceeded);
                }
                let rv = call_method(classes, heap, natives, mh, callargs, depth - 1, fuel)?;
                match rv {
                    Value::Void => {},
                    v => {
                        stack.push(v);
                    },
                }
            },
            FatOp::InvokeVirtual(_static_ci, partial, argtypes, _ret) => {
                let rest = pop_n(&mut stack, argtypes.len())?;
                let recv = pop_ref(&mut stack)?;
                let mh = virtual_target(classes, heap, recv, partial.as_str())?;
                let mut callargs: Vec<Value> = Vec::new();
                callargs.push(Value::ObjectRef(recv));
                let mut rest = rest;
                callargs.append(&mut rest);
                if depth == 0 {
                    return Err(CallError::CallDepthExceeded);
                }
                let rv = call_method(classes, heap, natives, mh, callargs, depth - 1, fuel)?;
                match rv {
                    Value::Void => {},
                    v => {
                        stack.push(v);
                    },
                }
            },
            FatOp::InvokeInterface(partial, argc) => {
                let callargs = pop_n(&mut stack, *argc as usize)?;
                if callargs.len() == 0 {
                    return Err(CallError::OperandType);
                }
                let recv = match callargs[0] {
                    Value::ObjectRef(h) => h,
                    _ => {
                        return Err(CallError::OperandType);
                    },
                };
                let mh = virtual_target(classes, heap, recv, partial.as_str())?;
                if depth == 0 {
                    return Err(CallError::CallDepthExceeded);
                }
                let rv = call_method(classes, heap, natives, mh, callargs, depth - 1, fuel)?;
                match rv {
                    Value::Void => {},
                    v => {
                        stack.push(v);
                    },
                }
            },
            FatOp::MultiANewArray(_ci, dimensions) => {
                let d = *dimensions as usize;
                if d == 0 {
                    return Err(CallError::OperandType);
                }
                let counts = pop_n(&mut stack, d)?;
                let mut lens: Vec<i32> = Vec::new();
                let mut q: usize = 0;
                proof {
                    assert(frame_run(ops@, Seq::<Value>::empty(), locals0, 0, fuel as int)
                        == FrameOutcome::Beyond);
                }
                while q < counts.len()
                    invariant
                        q <= counts@.len(),
                        fuel > 0,
                        ops@.len() > 0,
                        heap.spec_objects().len() >= old(heap).spec_objects().len(),
                        heap.spec_statics().len() >= old(heap).spec_statics().len(),
                        locals0 == pad_locals(args@, max_locals as int),
                        frame_run(ops@, Seq::<Value>::empty(), locals0, 0, fuel as int)
                            == FrameOutcome::Beyond,
                    decreases counts@.len() - q,
                {
                    match counts[q] {
                        Value::Int(v) => {
                            lens.push(v);
                        },
                        _ => {
                            return Err(CallError::OperandType);
                        },
                    }
                    q = q + 1;
                }
                if lens.len() == 0 {
                    return Err(CallError::OperandType);
                }
                if heap.object_count() == 0 {
                    return Err(CallError::BadHandle);
                }
                let h = alloc_multi(heap, &lens, 0)?;
                stack.push(Value::ObjectRef(h));
            },
            FatOp::InvokeDynamic => {
                return Err(CallError::UnsupportedOp);
            },
            _ => {
                return Err(CallError::UnsupportedOp);
            },
        }
        pc = next;
    }
    Err(CallError::OutOfFuel)
}

/// Allocates the dimension of a multi-dimensional reference array that
/// `lens[level]` describes: the innermost level holds null references, every
/// outer level holds the handles of its freshly allocated sub-arrays.
/// Existing objects are untouched.
fn alloc_multi(heap: &mut ObjectHeap, lens: &Vec<i32>, level: usize) -> (r: Result<
    usize,
    CallError,
>)
    requires
        level < lens@.len(),
        old(heap).spec_objects().len() >= 1,
    ensures
        final(heap).spec_objects().len() >= old(heap).spec_objects().len(),
        final(heap).spec_statics() == old(heap).spec_statics(),
        (forall|q: int|
            0 <= q < old(heap).spec_objects().len() ==> final(heap).spec_objects()[q] == old(
                heap,
            ).spec_objects()[q]),
        lens@[level as int] < 0 ==> r == Err::<usize, CallError>(CallError::NegativeArraySize),
        r matches Ok(h) ==> {
            &&& old(heap).spec_objects().len() <= h < final(heap).spec_objects().len()
            &&& match final(heap).spec_objects()[h as int] {
                Object::Array { elements } => lens@[level as int] >= 0 && elements@.len()
                    == lens@[level as int],
                _ => false,
            }
        },
    decreases lens@.len() - level,
{
    let len = lens[level];
    if len < 0 {
        return Err(CallError::NegativeArraySize);
    }
    let nlev = lens.len();
    let h = heap.new_array(Value::ObjectRef(0), len as usize);
    if level + 1 == nlev {
        return Ok(h);
    }
    let mut k: usize = 0;
    while k < len as usize
        invariant
            nlev == lens@.len(),
            level + 1 < nlev,
            len == lens@[level as int],
            len >= 0,
            k <= len as usize,
            heap.spec_objects().len() >= old(heap).spec_objects().len(),
            heap.spec_statics() == old(heap).spec_statics(),
            old(heap).spec_objects().len() <= h < heap.spec_objects().len(),
            old(heap).spec_objects().len() >= 1,
            (forall|q: int|
                0 <= q < old(heap).spec_objects().len() ==> heap.spec_objects()[q] == old(
                    heap,
                ).spec_objects()[q]),
            match heap.spec_objects()[h as int] {
                Object::Array { elements } => elements@.len() == len,
                _ => false,
            },
        decreases len as usize - k,
    {
        let sub = match alloc_multi(heap, lens, level + 1) {
            Ok(sub) => sub,
            Err(e) => {
                return Err(e);
            },
        };
        let ok = heap.set_element(h, k, Value::ObjectRef(sub));
        proof {
            assert(ok);
        }
        k = k + 1;
    }
    Ok(h)
}

/// The static slot a (class identifier, field name) pair resolves to through
/// the registry, or the failure the resolution reports.
pub open spec fn spec_static_slot(
    classes: CodeContainer,
    class_id: Seq<char>,
    name: Seq<char>,
) -> Result<usize, CallError> {
    match crate::registry::find_name(classes.spec_class_names(), class_id) {
        Option::Some(ch) => if 0 <= ch < classes.spec_classes().len() {
            match crate::registry::assoc_find(classes.spec_classes()[ch].spec_statics(), name) {
                Option::Some(slot) => Ok(slot),
                Option::None => Err(CallError::MissingField),
            }
        } else {
            Err(CallError::MissingClass)
        },
        Option::None => Err(CallError::MissingClass),
    }
}

/// What reading a static field yields: the value in its slot, or the failure
/// of the lookup.
pub open spec fn spec_read_static(
    classes: CodeContainer,
    heap: ObjectHeap,
    class_id: Seq<char>,
    name: Seq<char>,
) -> Result<Value, CallError> {
    match spec_static_slot(classes, class_id, name) {
        Result::Ok(slot) => if slot < heap.spec_statics().len() {
            Ok(heap.spec_statics()[slot as int])
        } else {
            Err(CallError::MissingField)
        },
        Result::Err(e) => Err(e),
    }
}

/// The layout offset the named field has in the run-time class of the object
/// at `h`, or the failure the lookup reports: the null handle, a handle
/// outside the heap, a non-instance object, an unregistered class, or a field
/// the class does not declare.
pub open spec fn spec_field_offset(
    classes: CodeContainer,
    heap: ObjectHeap,
    h: usize,
    name: Seq<char>,
) -> Result<usize, CallError> {
    if h == 0 {
        Err(CallError::NullPointer)
    } else if h >= heap.spec_objects().len() {
        Err(CallError::BadHandle)
    } else {
        match heap.spec_objects()[h as int] {
            Object::Instance { class, fields } => if class < classes.spec_classes().len() {
                match crate::registry::assoc_find(
                    classes.spec_classes()[class as int].spec_fields(),
                    name,
                ) {
                    Option::Some(off) => Ok(off),
                    Option::None => Err(CallError::MissingField),
                }
            } else {
                Err(CallError::MissingClass)
            },
            _ => Err(CallError::OperandType),
        }
    }
}

/// What reading the named field of the object at `h` yields.
pub open spec fn spec_read_field(
    classes: CodeContainer,
    heap: ObjectHeap,
    h: usize,
    name: Seq<char>,
) -> Result<Value, CallError> {
    match spec_field_offset(classes, heap, h, name) {
        Result::Ok(off) => match heap.spec_objects()[h as int] {
            Object::Instance { class, fields } => if off < fields@.len() {
                Ok(fields@[off as int])
            } else {
                Err(CallError::MissingField)
            },
            _ => Err(CallError::OperandType),
        },
        Result::Err(e) => Err(e),
    }
}

/// What reading element `idx` of the array at `h` yields.
pub open spec fn spec_array_load(heap: ObjectHeap, h: usize, idx: i32) -> Result<
    Value,
    CallError,
> {
    if h == 0 {
        Err(CallError::NullPointer)
    } else if h >= heap.spec_objects().len() {
        Err(CallError::BadHandle)
    } else if idx < 0 {
        Err(CallError::IndexOutOfBounds)
    } else {
        match heap.spec_objects()[h as int] {
            Object::Array { elements } => if idx < elements@.len() {
                Ok(elements@[idx as int])
            } else {
                Err(CallError::IndexOutOfBounds)
            },
            _ => Err(CallError::IndexOutOfBounds),
        }
    }
}

/// The method handle a virtual call binds to: the receiver's run-time class
/// is read from the heap and its vtable is searched by the partial mangled
/// name — never the static call-site class.
pub open spec fn spec_virtual_target(
    classes: CodeContainer,
    heap: ObjectHeap,
    recv: usize,
    partial: Seq<char>,
) -> Result<usize, CallError> {
    if recv == 0 {
        Err(CallError::NullPointer)
    } else if recv >= heap.spec_objects().len() {
        Err(CallError::BadHandle)
    } else {
        match heap.spec_objects()[recv as int] {
            Object::Instance { class, fields } => if class < classes.spec_classes().len() {
                match crate::registry::assoc_find(
                    classes.spec_classes()[class as int].spec_virtuals(),
                    partial,
                ) {
                    Option::Some(mh) => Ok(mh),
                    Option::None => Err(CallError::MethodNotFound),
                }
            } else {
                Err(CallError::MissingClass)
            },
            _ => Err(CallError::OperandType),
        }
    }
}

/// What an instance-of test answers: whether the object at `h` is an
/// instance whose registered class carries exactly the asked identifier.
pub open spec fn spec_instance_of(
    classes: CodeContainer,
    heap: ObjectHeap,
    h: usize,
    class_id: Seq<char>,
) -> Result<bool, CallError> {
    if h >= heap.spec_objects().len() {
        Err(CallError::BadHandle)
    } else {
        match heap.spec_objects()[h as int] {
            Object::Instance { class, fields } => if class < classes.spec_classes().len() {
                Ok(classes.spec_classes()[class as int].name@ == class_id)
            } else {
                Ok(false)
            },
            _ => Ok(false),
        }
    }
}

/// Resolves a static field to its slot and reads it.
fn read_static(classes: &CodeContainer, heap: &ObjectHeap, class_id: &str, name: &str) -> (r:
    Result<Value, CallError>)
    ensures
        r == spec_read_static(*classes, *heap, class_id@, name@),
{
    let class_h = match classes.lookup_class(class_id) {
        Some(h) => h,
        None => {
            return Err(CallError::MissingClass);
        },
    };
    if class_h >= classes.class_count() {
        return Err(CallError::MissingClass);
    }
    let slot = match classes.class_at(class_h).static_slot(name) {
        Some(s) => s,
        None => {
            return Err(CallError::MissingField);
        },
    };
    match heap.get_static(slot) {
        Some(v) => Ok(v),
        None => Err(CallError::MissingField),
    }
}

/// Resolves a static field to its slot and overwrites it.
fn write_static(
    classes: &CodeContainer,
    heap: &mut ObjectHeap,
    class_id: &str,
    name: &str,
    value: Value,
) -> (r: Result<(), CallError>)
    ensures
        final(heap).spec_objects() == old(heap).spec_objects(),
        final(heap).spec_statics().len() == old(heap).spec_statics().len(),
        match spec_static_slot(*classes, class_id@, name@) {
            Result::Ok(slot) => if slot < old(heap).spec_statics().len() {
                r == Ok::<(), CallError>(()) && final(heap).spec_statics() == old(heap).spec_statics().update(slot as int, value)
            } else {
                r == Err::<(), CallError>(CallError::MissingField) && final(heap).spec_statics()
                    == old(heap).spec_statics()
            },
            Result::Err(e) => r == Err::<(), CallError>(e) && final(heap).spec_statics() == old(heap).spec_statics(),
        },
{
    let class_h = match classes.lookup_class(class_id) {
        Some(h) => h,
        None => {
            return Err(CallError::MissingClass);
        },
    };
    if class_h >= classes.class_count() {
        return Err(CallError::MissingClass);
    }
    let slot = match classes.class_at(class_h).static_slot(name) {
        Some(s) => s,
        None => {
            return Err(CallError::MissingField);
        },
    };
    if heap.set_static(slot, value) {
        Ok(())
    } else {
        Err(CallError::MissingField)
    }
}

/// Pops the receiver, checks it, and reads the named field through the
/// receiver's own class layout.
fn read_field(
    classes: &CodeContainer,
    heap: &ObjectHeap,
    stack: &mut Vec<Value>,
    name: &str,
) -> (r: Result<Value, CallError>)
    ensures
        final(stack)@.len() <= old(stack)@.len(),
        old(stack)@.len() == 0 ==> r is Err,
        old(stack)@.len() > 0 ==> final(stack)@ == old(stack)@.drop_last() && r == (
        match old(stack)@.last() {
            Value::ObjectRef(h) => spec_read_field(*classes, *heap, h, name@),
            _ => Err::<Value, CallError>(CallError::OperandType),
        }),
{
    let h = pop_ref(stack)?;
    if h == 0 {
        return Err(CallError::NullPointer);
    }
    if h >= heap.object_count() {
        return Err(CallError::BadHandle);
    }
    let class_h = match heap.get_class_of(h) {
        Some(c) => c,
        None => {
            return Err(CallError::OperandType);
        },
    };
    if class_h >= classes.class_count() {
        return Err(CallError::MissingClass);
    }
    let offset = match classes.class_at(class_h).field_offset(name) {
        Some(o) => o,
        None => {
            return Err(CallError::MissingField);
        },
    };
    match heap.get_field(h, offset) {
        Some(v) => Ok(v),
        None => Err(CallError::MissingField),
    }
}

/// Pops the value and the receiver, checks them, and writes the named field
/// through the receiver's own class layout.
fn write_field(
    classes: &CodeContainer,
    heap: &mut ObjectHeap,
    stack: &mut Vec<Value>,
    name: &str,
) -> (r: Result<(), CallError>)
    ensures
        final(heap).spec_objects().len() == old(heap).spec_objects().len(),
        final(heap).spec_statics() == old(heap).spec_statics(),
        final(stack)@.len() <= old(stack)@.len(),
        old(stack)@.len() < 2 ==> r is Err && final(heap).spec_objects() == old(heap).spec_objects(),
        old(stack)@.len() >= 2 ==> final(stack)@ == old(stack)@.drop_last().drop_last() && (
        match (old(stack)@[old(stack)@.len() - 2], old(stack)@.last()) {
            (Value::ObjectRef(h), value) => match spec_field_offset(*classes, *old(heap), h, name@) {
                Result::Ok(off) => match old(heap).spec_objects()[h as int] {
                    Object::Instance { class, fields } => if off < fields@.len() {
                        &&& r == Ok::<(), CallError>(())
                        &&& final(heap).spec_objects()[h as int] matches Object::Instance {
                            class: c2,
                            fields: f2,
                        } && c2 == class && f2@ == fields@.update(off as int, value)
                        &&& (forall|k: int|
                            0 <= k < old(heap).spec_objects().len() && k != h ==> final(heap).spec_objects()[k] == old(heap).spec_objects()[k])
                    } else {
                        r == Err::<(), CallError>(CallError::MissingField) && final(heap).spec_objects() == old(heap).spec_objects()
                    },
                    _ => r is Err && final(heap).spec_objects() == old(heap).spec_objects(),
                },
                Result::Err(e) => r == Err::<(), CallError>(e) && final(heap).spec_objects()
                    == old(heap).spec_objects(),
            },
            _ => r is Err && final(heap).spec_objects() == old(heap).spec_objects(),
        }),
{
    let value = pop(stack)?;
    let h = pop_ref(stack)?;
    if h == 0 {
        return Err(CallError::NullPointer);
    }
    if h >= heap.object_count() {
        return Err(CallError::BadHandle);
    }
    let class_h = match heap.get_class_of(h) {
        Some(c) => c,
        None => {
            return Err(CallError::OperandType);
        },
    };
    if class_h >= classes.class_count() {
        return Err(CallError::MissingClass);
    }
    let offset = match classes.class_at(class_h).field_offset(name) {
        Some(o) => o,
        None => {
            return Err(CallError::MissingField);
        },
    };
    if heap.set_field(h, offset, value) {
        Ok(())
    } else {
        Err(CallError::MissingField)
    }
}

/// Pops the length and allocates a primitive array filled with `default`.
fn new_prim_array(heap: &mut ObjectHeap, stack: &mut Vec<Value>, default: Value) -> (r: Result<
    usize,
    CallError,
>)
    ensures
        final(heap).spec_objects().len() >= old(heap).spec_objects().len(),
        final(heap).spec_statics() == old(heap).spec_statics(),
        final(stack)@.len() <= old(stack)@.len(),
        old(stack)@.len() == 0 ==> r is Err && final(heap).spec_objects() == old(heap).spec_objects(),
        old(stack)@.len() > 0 ==> final(stack)@ == old(stack)@.drop_last() && (
        match old(stack)@.last() {
            Value::Int(len) => if len < 0 {
                r == Err::<usize, CallError>(CallError::NegativeArraySize) && final(heap).spec_objects() == old(heap).spec_objects()
            } else {
                &&& r matches Ok(h)
                &&& crate::heap::issues_object_handle(*old(heap), *final(heap), h)
                &&& (forall|k: int|
                    0 <= k < old(heap).spec_objects().len() ==> final(heap).spec_objects()[k]
                        == old(heap).spec_objects()[k])
                &&& match final(heap).spec_objects().last() {
                    Object::Array { elements } => elements@.len() == len && (forall|k: int|
                        0 <= k < elements@.len() ==> elements@[k] == default),
                    _ => false,
                }
            },
            _ => r is Err && final(heap).spec_objects() == old(heap).spec_objects(),
        }),
{
    let len = pop_int(stack)?;
    if len < 0 {
        return Err(CallError::NegativeArraySize);
    }
    Ok(heap.new_array(default, len as usize))
}

/// Pops an index and an array reference and reads the element.
fn array_load(heap: &ObjectHeap, stack: &mut Vec<Value>) -> (r: Result<Value, CallError>)
    ensures
        final(stack)@.len() <= old(stack)@.len(),
        old(stack)@.len() < 2 ==> r is Err,
        old(stack)@.len() >= 2 ==> (match (
            old(stack)@[old(stack)@.len() - 2],
            old(stack)@.last(),
        ) {
            (Value::ObjectRef(h), Value::Int(idx)) => final(stack)@ == old(
                stack,
            )@.drop_last().drop_last() && r == spec_array_load(*heap, h, idx),
            _ => r is Err,
        }),
{
    let idx = pop_int(stack)?;
    let h = pop_ref(stack)?;
    if h == 0 {
        return Err(CallError::NullPointer);
    }
    if h >= heap.object_count() {
        return Err(CallError::BadHandle);
    }
    if idx < 0 {
        return Err(CallError::IndexOutOfBounds);
    }
    match heap.get_element(h, idx as usize) {
        Some(v) => Ok(v),
        None => Err(CallError::IndexOutOfBounds),
    }
}

/// Pops a value, an index and an array reference and writes the element.
fn array_store(heap: &mut ObjectHeap, stack: &mut Vec<Value>) -> (r: Result<(), CallError>)
    ensures
        final(heap).spec_objects().len() == old(heap).spec_objects().len(),
        final(heap).spec_statics() == old(heap).spec_statics(),
        final(stack)@.len() <= old(stack)@.len(),
        old(stack)@.len() < 3 ==> r is Err && final(heap).spec_objects() == old(heap).spec_objects(),
        old(stack)@.len() >= 3 ==> (match (
            old(stack)@[old(stack)@.len() - 3],
            old(stack)@[old(stack)@.len() - 2],
            old(stack)@.last(),
        ) {
            (Value::ObjectRef(h), Value::Int(idx), value) => final(stack)@ == old(
                stack,
            )@.drop_last().drop_last().drop_last() && match spec_array_load(
                *old(heap),
                h,
                idx,
            ) {
                Result::Ok(_) => {
                    &&& r == Ok::<(), CallError>(())
                    &&& final(heap).spec_objects()[h as int] matches Object::Array {
                        elements: e2,
                    } && old(heap).spec_objects()[h as int] matches Object::Array {
                        elements: e1,
                    } && e2@ == e1@.update(idx as int, value)
                    &&& (forall|k: int|
                        0 <= k < old(heap).spec_objects().len() && k != h ==> final(heap).spec_objects()[k] == old(heap).spec_objects()[k])
                },
                Result::Err(e) => r == Err::<(), CallError>(e) && final(heap).spec_objects()
                    == old(heap).spec_objects(),
            },
            _ => r is Err && final(heap).spec_objects() == old(heap).spec_objects(),
        }),
{
    let value = pop(stack)?;
    let idx = pop_int(stack)?;
    let h = pop_ref(stack)?;
    if h == 0 {
        return Err(CallError::NullPointer);
    }
    if h >= heap.object_count() {
        return Err(CallError::BadHandle);
    }
    if idx < 0 {
        return Err(CallError::IndexOutOfBounds);
    }
    if heap.set_element(h, idx as usize, value) {
        Ok(())
    } else {
        Err(CallError::IndexOutOfBounds)
    }
}

/// Whether the object at `h` is an instance of the class whose flattened
/// identifier is `class_id`.
fn instance_of(classes: &CodeContainer, heap: &ObjectHeap, h: usize, class_id: &str) -> (r: Result<
    bool,
    CallError,
>)
    requires
        h != 0,
    ensures
        r == spec_instance_of(*classes, *heap, h, class_id@),
{
    if h >= heap.object_count() {
        return Err(CallError::BadHandle);
    }
    let class_h = match heap.get_class_of(h) {
        Some(c) => c,
        None => {
            return Ok(false);
        },
    };
    if class_h >= classes.class_count() {
        return Ok(false);
    }
    Ok(str_eq(classes.class_at(class_h).name.as_str(), class_id))
}

/// Resolves a virtual call through the receiver's run-time class: the vtable
/// slot is found by the partial mangled name, never through the static
/// call-site class.
fn virtual_target(classes: &CodeContainer, heap: &ObjectHeap, recv: usize, partial: &str) -> (r:
    Result<usize, CallError>)
    ensures
        r == spec_virtual_target(*classes, *heap, recv, partial@),
{
    if recv == 0 {
        return Err(CallError::NullPointer);
    }
    if recv >= heap.object_count() {
        return Err(CallError::BadHandle);
    }
    let class_h = match heap.get_class_of(recv) {
        Some(c) => c,
        None => {
            return Err(CallError::OperandType);
        },
    };
    if class_h >= classes.class_count() {
        return Err(CallError::MissingClass);
    }
    match classes.class_at(class_h).virtual_of(partial) {
        Some(mh) => Ok(mh),
        None => Err(CallError::MethodNotFound),
    }
}

} // verus!
