use vstd::prelude::*;

verus! {

/// The payload of a raw `lookupswitch` instruction: a default branch offset
/// and ordered (key, offset) pairs, both relative to the instruction.
#[derive(Debug, Clone)]
pub struct LookupSwitch {
    pub default_offset: i32,
    pub pairs: Vec<(i32, i32)>,
}

/// A raw opcode as it stands in a method's bytecode stream: constant-pool
/// references are still indices and branch offsets are still relative.
/// Floating-point immediates are carried as raw IEEE-754 bit patterns.
#[derive(Debug, Clone)]
pub enum OpCode {
    LoadConst(u16),
    AConstNull,
    BIPush(i8),
    SIPush(i16),
    IConst(i32),
    FConst(u32),
    DConst(u64),
    LConst(i64),
    LCmp,
    FCmpG,
    FCmpL,
    DCmpL,
    DCmpG,
    F2D,
    D2F,
    ISub,
    DSub,
    FSub,
    LSub,
    DAdd,
    FAdd,
    IAdd,
    LAdd,
    DMul,
    FMul,
    IMul,
    LMul,
    DDiv,
    FDiv,
    IDiv,
    LDiv,
    DRem,
    FRem,
    IRem,
    LRem,
    IShr,
    IShl,
    LShl,
    LUShr,
    IUShr,
    IAnd,
    LAnd,
    IOr,
    LOr,
    IXOr,
    LXOr,
    INeg,
    LNeg,
    DNeg,
    FNeg,
    L2I,
    L2F,
    F2I,
    F2L,
    I2B,
    I2C,
    I2F,
    I2D,
    I2S,
    I2L,
    D2I,
    D2L,
    L2D,
    ALoad(u8),
    ILoad(u8),
    LLoad(u8),
    FLoad(u8),
    DLoad(u8),
    AStore(u8),
    DStore(u8),
    FStore(u8),
    IStore(u8),
    LStore(u8),
    GetStatic(u16),
    PutStatic(u16),
    GetField(u16),
    PutField(u16),
    IfICmpEq(i16),
    IfNull(i16),
    IfNotNull(i16),
    IfZero(i16),
    IfNotZero(i16),
    IfICmpNe(i16),
    IfACmpEq(i16),
    IfIGreterEqual(i16),
    IfGreterEqualZero(i16),
    IfGreterZero(i16),
    IfICmpGreater(i16),
    IfLessZero(i16),
    IfICmpLessEqual(i16),
    IfICmpLessThan(i16),
    IfLessEqualZero(i16),
    IfACmpNe(i16),
    GoTo(i16),
    New(u16),
    ANewArray(u16),
    MultiANewArray(u16, u8),
    NewArray(u8),
    CheckCast(u16),
    InstanceOf(u16),
    Swap,
    Dup,
    Dup2,
    DupX1,
    Dup2X1,
    DupX2,
    Dup2X2,
    Pop,
    Pop2,
    InvokeSpecial(u16),
    InvokeStatic(u16),
    InvokeVirtual(u16),
    InvokeInterface(u16),
    InvokeDynamic(u16),
    Return,
    AReturn,
    FReturn,
    IReturn,
    LReturn,
    DReturn,
    AAStore,
    BAStore,
    CAStore,
    DAStore,
    FAStore,
    IAStore,
    LAStore,
    SAStore,
    AALoad,
    BALoad,
    CALoad,
    DALoad,
    FALoad,
    IALoad,
    LALoad,
    SALoad,
    ArrayLength,
    IInc(u8, i8),
    Throw,
    MonitorEnter,
    MonitorExit,
    LookupSwitch(LookupSwitch),
}

} // verus!
