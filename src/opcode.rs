use vstd::prelude::*;

verus! {

/// An instruction that carries no operand.
#[derive(Clone, Copy, Debug, PartialEq, Eq, Structural)]
pub enum SimpleOp {
    Add,
    Add2,
    And,
    AsciiToChar,
    BitAnd,
    BitLShift,
    BitOr,
    BitRShift,
    BitURShift,
    BitXor,
    Call,
    CallFunction,
    CallMethod,
    CastOp,
    CharToAscii,
    CloneSprite,
    Decrement,
    DefineLocal,
    DefineLocal2,
    Delete,
    Delete2,
    Divide,
    EndDrag,
    Enumerate,
    Enumerate2,
    Equals,
    Equals2,
    Extends,
    GetMember,
    GetProperty,
    GetTime,
    GetVariable,
    Greater,
    ImplementsOp,
    Increment,
    InitArray,
    InitObject,
    InstanceOf,
    Less,
    Less2,
    MBAsciiToChar,
    MBCharToAscii,
    MBStringExtract,
    MBStringLength,
    Modulo,
    Multiply,
    NewMethod,
    NewObject,
    NextFrame,
    Not,
    Or,
    Play,
    Pop,
    PreviousFrame,
    PushDuplicate,
    RandomNumber,
    RemoveSprite,
    Return,
    SetMember,
    SetProperty,
    SetTarget2,
    SetVariable,
    StackSwap,
    StartDrag,
    Stop,
    StopSounds,
    StrictEquals,
    StringAdd,
    StringEquals,
    StringExtract,
    StringGreater,
    StringLength,
    StringLess,
    Subtract,
    TargetPath,
    Throw,
    ToggleQuality,
    ToInteger,
    ToNumber,
    ToString,
    Trace,
    TypeOf,
}

/// The zero-operand instruction that an opcode stands for, if any.
pub open spec fn simple_op_of(code: u8) -> Option<SimpleOp> {
    match code {
        0x0A => Some(SimpleOp::Add),
        0x47 => Some(SimpleOp::Add2),
        0x10 => Some(SimpleOp::And),
        0x33 => Some(SimpleOp::AsciiToChar),
        0x60 => Some(SimpleOp::BitAnd),
        0x63 => Some(SimpleOp::BitLShift),
        0x61 => Some(SimpleOp::BitOr),
        0x64 => Some(SimpleOp::BitRShift),
        0x65 => Some(SimpleOp::BitURShift),
        0x62 => Some(SimpleOp::BitXor),
        0x9E => Some(SimpleOp::Call),
        0x3D => Some(SimpleOp::CallFunction),
        0x52 => Some(SimpleOp::CallMethod),
        0x2B => Some(SimpleOp::CastOp),
        0x32 => Some(SimpleOp::CharToAscii),
        0x24 => Some(SimpleOp::CloneSprite),
        0x51 => Some(SimpleOp::Decrement),
        0x3C => Some(SimpleOp::DefineLocal),
        0x41 => Some(SimpleOp::DefineLocal2),
        0x3A => Some(SimpleOp::Delete),
        0x3B => Some(SimpleOp::Delete2),
        0x0D => Some(SimpleOp::Divide),
        0x28 => Some(SimpleOp::EndDrag),
        0x46 => Some(SimpleOp::Enumerate),
        0x55 => Some(SimpleOp::Enumerate2),
        0x0E => Some(SimpleOp::Equals),
        0x49 => Some(SimpleOp::Equals2),
        0x69 => Some(SimpleOp::Extends),
        0x4E => Some(SimpleOp::GetMember),
        0x22 => Some(SimpleOp::GetProperty),
        0x34 => Some(SimpleOp::GetTime),
        0x1C => Some(SimpleOp::GetVariable),
        0x67 => Some(SimpleOp::Greater),
        0x2C => Some(SimpleOp::ImplementsOp),
        0x50 => Some(SimpleOp::Increment),
        0x42 => Some(SimpleOp::InitArray),
        0x43 => Some(SimpleOp::InitObject),
        0x54 => Some(SimpleOp::InstanceOf),
        0x0F => Some(SimpleOp::Less),
        0x48 => Some(SimpleOp::Less2),
        0x37 => Some(SimpleOp::MBAsciiToChar),
        0x36 => Some(SimpleOp::MBCharToAscii),
        0x35 => Some(SimpleOp::MBStringExtract),
        0x31 => Some(SimpleOp::MBStringLength),
        0x3F => Some(SimpleOp::Modulo),
        0x0C => Some(SimpleOp::Multiply),
        0x53 => Some(SimpleOp::NewMethod),
        0x40 => Some(SimpleOp::NewObject),
        0x04 => Some(SimpleOp::NextFrame),
        0x12 => Some(SimpleOp::Not),
        0x11 => Some(SimpleOp::Or),
        0x06 => Some(SimpleOp::Play),
        0x17 => Some(SimpleOp::Pop),
        0x05 => Some(SimpleOp::PreviousFrame),
        0x4C => Some(SimpleOp::PushDuplicate),
        0x30 => Some(SimpleOp::RandomNumber),
        0x25 => Some(SimpleOp::RemoveSprite),
        0x3E => Some(SimpleOp::Return),
        0x4F => Some(SimpleOp::SetMember),
        0x23 => Some(SimpleOp::SetProperty),
        0x20 => Some(SimpleOp::SetTarget2),
        0x1D => Some(SimpleOp::SetVariable),
        0x4D => Some(SimpleOp::StackSwap),
        0x27 => Some(SimpleOp::StartDrag),
        0x07 => Some(SimpleOp::Stop),
        0x09 => Some(SimpleOp::StopSounds),
        0x66 => Some(SimpleOp::StrictEquals),
        0x21 => Some(SimpleOp::StringAdd),
        0x13 => Some(SimpleOp::StringEquals),
        0x15 => Some(SimpleOp::StringExtract),
        0x68 => Some(SimpleOp::StringGreater),
        0x14 => Some(SimpleOp::StringLength),
        0x29 => Some(SimpleOp::StringLess),
        0x0B => Some(SimpleOp::Subtract),
        0x45 => Some(SimpleOp::TargetPath),
        0x2A => Some(SimpleOp::Throw),
        0x08 => Some(SimpleOp::ToggleQuality),
        0x18 => Some(SimpleOp::ToInteger),
        0x4A => Some(SimpleOp::ToNumber),
        0x4B => Some(SimpleOp::ToString),
        0x26 => Some(SimpleOp::Trace),
        0x44 => Some(SimpleOp::TypeOf),
        _ => None,
    }
}

/// Looks up the zero-operand instruction that `code` stands for.
pub fn simple_op(code: u8) -> (r: Option<SimpleOp>)
    ensures
        r == simple_op_of(code),
{
    match code {
        0x0A => Some(SimpleOp::Add),
        0x47 => Some(SimpleOp::Add2),
        0x10 => Some(SimpleOp::And),
        0x33 => Some(SimpleOp::AsciiToChar),
        0x60 => Some(SimpleOp::BitAnd),
        0x63 => Some(SimpleOp::BitLShift),
        0x61 => Some(SimpleOp::BitOr),
        0x64 => Some(SimpleOp::BitRShift),
        0x65 => Some(SimpleOp::BitURShift),
        0x62 => Some(SimpleOp::BitXor),
        0x9E => Some(SimpleOp::Call),
        0x3D => Some(SimpleOp::CallFunction),
        0x52 => Some(SimpleOp::CallMethod),
        0x2B => Some(SimpleOp::CastOp),
        0x32 => Some(SimpleOp::CharToAscii),
        0x24 => Some(SimpleOp::CloneSprite),
        0x51 => Some(SimpleOp::Decrement),
        0x3C => Some(SimpleOp::DefineLocal),
        0x41 => Some(SimpleOp::DefineLocal2),
        0x3A => Some(SimpleOp::Delete),
        0x3B => Some(SimpleOp::Delete2),
        0x0D => Some(SimpleOp::Divide),
        0x28 => Some(SimpleOp::EndDrag),
        0x46 => Some(SimpleOp::Enumerate),
        0x55 => Some(SimpleOp::Enumerate2),
        0x0E => Some(SimpleOp::Equals),
        0x49 => Some(SimpleOp::Equals2),
        0x69 => Some(SimpleOp::Extends),
        0x4E => Some(SimpleOp::GetMember),
        0x22 => Some(SimpleOp::GetProperty),
        0x34 => Some(SimpleOp::GetTime),
        0x1C => Some(SimpleOp::GetVariable),
        0x67 => Some(SimpleOp::Greater),
        0x2C => Some(SimpleOp::ImplementsOp),
        0x50 => Some(SimpleOp::Increment),
        0x42 => Some(SimpleOp::InitArray),
        0x43 => Some(SimpleOp::InitObject),
        0x54 => Some(SimpleOp::InstanceOf),
        0x0F => Some(SimpleOp::Less),
        0x48 => Some(SimpleOp::Less2),
        0x37 => Some(SimpleOp::MBAsciiToChar),
        0x36 => Some(SimpleOp::MBCharToAscii),
        0x35 => Some(SimpleOp::MBStringExtract),
        0x31 => Some(SimpleOp::MBStringLength),
        0x3F => Some(SimpleOp::Modulo),
        0x0C => Some(SimpleOp::Multiply),
        0x53 => Some(SimpleOp::NewMethod),
        0x40 => Some(SimpleOp::NewObject),
        0x04 => Some(SimpleOp::NextFrame),
        0x12 => Some(SimpleOp::Not),
        0x11 => Some(SimpleOp::Or),
        0x06 => Some(SimpleOp::Play),
        0x17 => Some(SimpleOp::Pop),
        0x05 => Some(SimpleOp::PreviousFrame),
        0x4C => Some(SimpleOp::PushDuplicate),
        0x30 => Some(SimpleOp::RandomNumber),
        0x25 => Some(SimpleOp::RemoveSprite),
        0x3E => Some(SimpleOp::Return),
        0x4F => Some(SimpleOp::SetMember),
        0x23 => Some(SimpleOp::SetProperty),
        0x20 => Some(SimpleOp::SetTarget2),
        0x1D => Some(SimpleOp::SetVariable),
        0x4D => Some(SimpleOp::StackSwap),
        0x27 => Some(SimpleOp::StartDrag),
        0x07 => Some(SimpleOp::Stop),
        0x09 => Some(SimpleOp::StopSounds),
        0x66 => Some(SimpleOp::StrictEquals),
        0x21 => Some(SimpleOp::StringAdd),
        0x13 => Some(SimpleOp::StringEquals),
        0x15 => Some(SimpleOp::StringExtract),
        0x68 => Some(SimpleOp::StringGreater),
        0x14 => Some(SimpleOp::StringLength),
        0x29 => Some(SimpleOp::StringLess),
        0x0B => Some(SimpleOp::Subtract),
        0x45 => Some(SimpleOp::TargetPath),
        0x2A => Some(SimpleOp::Throw),
        0x08 => Some(SimpleOp::ToggleQuality),
        0x18 => Some(SimpleOp::ToInteger),
        0x4A => Some(SimpleOp::ToNumber),
        0x4B => Some(SimpleOp::ToString),
        0x26 => Some(SimpleOp::Trace),
        0x44 => Some(SimpleOp::TypeOf),
        _ => None,
    }
}

} // verus!
