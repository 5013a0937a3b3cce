use vstd::prelude::*;
use crate::opcode::simple_op_of;
use crate::text::decode_text;
use crate::types::{ActionM, CatchVarM, DecodeError, FunctionM, ParamM, SendVarsMethod, TryBlockM, ValueM};

verus! {

// The byte format, stated over a byte sequence `d`, a position `p` and the end
// `e` of the bounded range being read. A successful read gives its value and
// the position after it.

/// Opcodes from this value on are followed by a 16-bit payload length.
pub const LONG_OPCODE: u8 = 0x80;

pub open spec fn le16(lo: u8, hi: u8) -> u16 {
    (lo as int + 256 * hi as int) as u16
}

pub open spec fn le32(d: Seq<u8>, p: int) -> u32 {
    (d[p] as int + 0x100 * d[p + 1] as int + 0x1_0000 * d[p + 2] as int + 0x100_0000 * d[p
        + 3] as int) as u32
}

pub open spec fn le64(d: Seq<u8>, p: int) -> u64 {
    (le32(d, p) as int + 0x1_0000_0000 * le32(d, p + 4) as int) as u64
}

/// Two's complement reading of a 16-bit word.
pub open spec fn signed16(u: u16) -> i16 {
    if u < 0x8000 {
        u as i16
    } else {
        (u as int - 0x1_0000) as i16
    }
}

pub open spec fn get_u8(d: Seq<u8>, p: int, e: int) -> Result<(u8, int), DecodeError> {
    if p + 1 <= e {
        Ok((d[p], p + 1))
    } else {
        Err(DecodeError::UnexpectedEof)
    }
}

pub open spec fn get_u16(d: Seq<u8>, p: int, e: int) -> Result<(u16, int), DecodeError> {
    if p + 2 <= e {
        Ok((le16(d[p], d[p + 1]), p + 2))
    } else {
        Err(DecodeError::UnexpectedEof)
    }
}

pub open spec fn get_u32(d: Seq<u8>, p: int, e: int) -> Result<(u32, int), DecodeError> {
    if p + 4 <= e {
        Ok((le32(d, p), p + 4))
    } else {
        Err(DecodeError::UnexpectedEof)
    }
}

pub open spec fn get_u64(d: Seq<u8>, p: int, e: int) -> Result<(u64, int), DecodeError> {
    if p + 8 <= e {
        Ok((le64(d, p), p + 8))
    } else {
        Err(DecodeError::UnexpectedEof)
    }
}

/// `z` is the first zero byte at or after `p`, before `e`.
pub open spec fn first_nul(d: Seq<u8>, p: int, e: int, z: int) -> bool {
    &&& p <= z < e
    &&& d[z] == 0
    &&& forall|k: int| p <= k < z ==> d[k] != 0
}

/// A zero-terminated string, decoded as `v` asks.
pub open spec fn get_cstr(d: Seq<u8>, p: int, e: int, v: u8) -> Result<(Seq<char>, int), DecodeError> {
    if exists|z: int| first_nul(d, p, e, z) {
        let z = choose|z: int| first_nul(d, p, e, z);
        match decode_text(d.subrange(p, z), v) {
            Some(s) => Ok((s, z + 1)),
            None => Err(DecodeError::InvalidString),
        }
    } else {
        Err(DecodeError::UnexpectedEof)
    }
}

/// `n` strings in a row.
pub open spec fn get_cstrs(d: Seq<u8>, p: int, e: int, v: u8, n: nat) -> Result<
    (Seq<Seq<char>>, int),
    DecodeError,
>
    decreases n,
{
    if n == 0 {
        Ok((seq![], p))
    } else {
        match get_cstrs(d, p, e, v, (n - 1) as nat) {
            Err(x) => Err(x),
            Ok((ss, q)) => match get_cstr(d, q, e, v) {
                Err(x) => Err(x),
                Ok((s, r)) => Ok((ss.push(s), r)),
            },
        }
    }
}

/// `n` parameters of a `DefineFunction2`: a register byte (zero for none) and a name.
pub open spec fn get_params(d: Seq<u8>, p: int, e: int, v: u8, n: nat) -> Result<
    (Seq<ParamM>, int),
    DecodeError,
>
    decreases n,
{
    if n == 0 {
        Ok((seq![], p))
    } else {
        match get_params(d, p, e, v, (n - 1) as nat) {
            Err(x) => Err(x),
            Ok((ps, q)) => match get_u8(d, q, e) {
                Err(x) => Err(x),
                Ok((reg, r)) => match get_cstr(d, r, e, v) {
                    Err(x) => Err(x),
                    Ok((name, t)) => Ok(
                        (
                            ps.push(
                                ParamM {
                                    name,
                                    register_index: if reg == 0 {
                                        None
                                    } else {
                                        Some(reg)
                                    },
                                },
                            ),
                            t,
                        ),
                    ),
                },
            },
        }
    }
}

/// One push operand: a type tag, then the value that the tag selects.
pub open spec fn get_value(d: Seq<u8>, p: int, e: int, v: u8) -> Result<(ValueM, int), DecodeError> {
    match get_u8(d, p, e) {
        Err(x) => Err(x),
        Ok((tag, q)) => if tag == 0 {
            match get_cstr(d, q, e, v) {
                Err(x) => Err(x),
                Ok((s, r)) => Ok((ValueM::Str(s), r)),
            }
        } else if tag == 1 {
            match get_u32(d, q, e) {
                Err(x) => Err(x),
                Ok((x, r)) => Ok((ValueM::Float(x), r)),
            }
        } else if tag == 2 {
            Ok((ValueM::Null, q))
        } else if tag == 3 {
            Ok((ValueM::Undefined, q))
        } else if tag == 4 {
            match get_u8(d, q, e) {
                Err(x) => Err(x),
                Ok((x, r)) => Ok((ValueM::Register(x), r)),
            }
        } else if tag == 5 {
            match get_u8(d, q, e) {
                Err(x) => Err(x),
                Ok((x, r)) => Ok((ValueM::Bool(x != 0), r)),
            }
        } else if tag == 6 {
            match get_u64(d, q, e) {
                Err(x) => Err(x),
                Ok((x, r)) => Ok((ValueM::Double(x), r)),
            }
        } else if tag == 7 {
            match get_u32(d, q, e) {
                Err(x) => Err(x),
                Ok((x, r)) => Ok((ValueM::Int(x), r)),
            }
        } else if tag == 8 {
            match get_u8(d, q, e) {
                Err(x) => Err(x),
                Ok((x, r)) => Ok((ValueM::ConstantPool(x as u16), r)),
            }
        } else if tag == 9 {
            match get_u16(d, q, e) {
                Err(x) => Err(x),
                Ok((x, r)) => Ok((ValueM::ConstantPool(x), r)),
            }
        } else {
            Err(DecodeError::InvalidPushValueType)
        },
    }
}

/// Push operands until the payload runs out; an operand cut off by the end
/// of the payload ends the sequence without error.
pub open spec fn get_values(d: Seq<u8>, p: int, e: int, v: u8) -> Result<Seq<ValueM>, DecodeError>
    decreases e - p,
{
    if p >= e {
        Ok(seq![])
    } else {
        match get_value(d, p, e, v) {
            Err(DecodeError::UnexpectedEof) => Ok(seq![]),
            Err(x) => Err(x),
            Ok((x, q)) => if p < q {
                match get_values(d, q, e, v) {
                    Err(y) => Err(y),
                    Ok(xs) => Ok(seq![x] + xs),
                }
            } else {
                Ok(seq![x])
            },
        }
    }
}

pub open spec fn send_vars_method_of(flags: u8) -> Option<SendVarsMethod> {
    if flags >> 6u8 == 0 {
        Some(SendVarsMethod::DontSend)
    } else if flags >> 6u8 == 1 {
        Some(SendVarsMethod::Get)
    } else if flags >> 6u8 == 2 {
        Some(SendVarsMethod::Post)
    } else {
        None
    }
}

pub open spec fn bit(flags: u16, k: u16) -> bool {
    flags & (1u16 << k) != 0
}

/// The `DefineFunction2` header: its body is read afterwards.
pub open spec fn function2_of(name: Seq<char>, params: Seq<ParamM>, num_registers: u8, flags: u16) -> FunctionM {
    FunctionM {
        name,
        params,
        num_registers,
        preload_global: bit(flags, 8),
        preload_parent: bit(flags, 7),
        preload_root: bit(flags, 6),
        suppress_super: bit(flags, 5),
        preload_super: bit(flags, 4),
        suppress_arguments: bit(flags, 3),
        preload_arguments: bit(flags, 2),
        suppress_this: bit(flags, 1),
        preload_this: bit(flags, 0),
        actions: seq![],
    }
}

pub open spec fn payload_goto_frame(d: Seq<u8>, p: int, e: int, v: u8) -> Result<(ActionM, Option<u16>), DecodeError>
{
    match get_u16(d, p, e) {
        Err(x) => Err(x),
        Ok((n, _)) => Ok((ActionM::GotoFrame(n), None)),
    }
}

pub open spec fn payload_get_url(d: Seq<u8>, p: int, e: int, v: u8) -> Result<(ActionM, Option<u16>), DecodeError>
{
    match get_cstr(d, p, e, v) {
        Err(x) => Err(x),
        Ok((url, q)) => match get_cstr(d, q, e, v) {
            Err(x) => Err(x),
            Ok((target, _)) => Ok((ActionM::GetUrl { url, target }, None)),
        },
    }
}

pub open spec fn payload_store_register(d: Seq<u8>, p: int, e: int, v: u8) -> Result<(ActionM, Option<u16>), DecodeError>
{
    match get_u8(d, p, e) {
        Err(x) => Err(x),
        Ok((r, _)) => Ok((ActionM::StoreRegister(r), None)),
    }
}

pub open spec fn payload_constant_pool(d: Seq<u8>, p: int, e: int, v: u8) -> Result<(ActionM, Option<u16>), DecodeError>
{
    match get_u16(d, p, e) {
        Err(x) => Err(x),
        Ok((n, q)) => match get_cstrs(d, q, e, v, n as nat) {
            Err(x) => Err(x),
            Ok((ss, _)) => Ok((ActionM::ConstantPool(ss), None)),
        },
    }
}

pub open spec fn payload_wait_for_frame(d: Seq<u8>, p: int, e: int, v: u8) -> Result<(ActionM, Option<u16>), DecodeError>
{
    match get_u16(d, p, e) {
        Err(x) => Err(x),
        Ok((frame, q)) => match get_u8(d, q, e) {
            Err(x) => Err(x),
            Ok((skip, _)) => Ok(
                (ActionM::WaitForFrame { frame, num_actions_to_skip: skip }, None),
            ),
        },
    }
}

pub open spec fn payload_set_target(d: Seq<u8>, p: int, e: int, v: u8) -> Result<(ActionM, Option<u16>), DecodeError>
{
    match get_cstr(d, p, e, v) {
        Err(x) => Err(x),
        Ok((s, _)) => Ok((ActionM::SetTarget(s), None)),
    }
}

pub open spec fn payload_goto_label(d: Seq<u8>, p: int, e: int, v: u8) -> Result<(ActionM, Option<u16>), DecodeError>
{
    match get_cstr(d, p, e, v) {
        Err(x) => Err(x),
        Ok((s, _)) => Ok((ActionM::GotoLabel(s), None)),
    }
}

pub open spec fn payload_wait_for_frame2(d: Seq<u8>, p: int, e: int, v: u8) -> Result<(ActionM, Option<u16>), DecodeError>
{
    match get_u8(d, p, e) {
        Err(x) => Err(x),
        Ok((skip, _)) => Ok((ActionM::WaitForFrame2 { num_actions_to_skip: skip }, None)),
    }
}

pub open spec fn payload_define_function2(d: Seq<u8>, p: int, e: int, v: u8) -> Result<(ActionM, Option<u16>), DecodeError>
{
    match get_cstr(d, p, e, v) {
        Err(x) => Err(x),
        Ok((name, q1)) => match get_u16(d, q1, e) {
            Err(x) => Err(x),
            Ok((n, q2)) => match get_u8(d, q2, e) {
                Err(x) => Err(x),
                Ok((regs, q3)) => match get_u16(d, q3, e) {
                    Err(x) => Err(x),
                    Ok((flags, q4)) => match get_params(d, q4, e, v, n as nat) {
                        Err(x) => Err(x),
                        Ok((params, q5)) => match get_u16(d, q5, e) {
                            Err(x) => Err(x),
                            Ok((len, _)) => Ok(
                                (
                                    ActionM::DefineFunction2(
                                        function2_of(name, params, regs, flags),
                                    ),
                                    Some(len),
                                ),
                            ),
                        },
                    },
                },
            },
        },
    }
}

/// A `With` payload: the length of the block, then the block itself.
pub open spec fn payload_with(d: Seq<u8>, p: int, e: int, v: u8) -> Result<(ActionM, Option<u16>), DecodeError>
    decreases e - p, 0int,
{
    match get_u16(d, p, e) {
        Err(x) => Err(x),
        Ok((n, q)) => if q + n <= e {
            match get_list(d, q, q + n, v) {
                Err(x) => Err(x),
                Ok(body) => Ok((ActionM::With { actions: body }, None)),
            }
        } else {
            Err(DecodeError::UnexpectedEof)
        },
    }
}

pub open spec fn payload_push(d: Seq<u8>, p: int, e: int, v: u8) -> Result<(ActionM, Option<u16>), DecodeError>
{
    match get_values(d, p, e, v) {
        Err(x) => Err(x),
        Ok(xs) => Ok((ActionM::Push(xs), None)),
    }
}

pub open spec fn payload_jump(d: Seq<u8>, p: int, e: int, v: u8) -> Result<(ActionM, Option<u16>), DecodeError>
{
    match get_u16(d, p, e) {
        Err(x) => Err(x),
        Ok((o, _)) => Ok((ActionM::Jump { offset: signed16(o), jump_to: 0 }, None)),
    }
}

pub open spec fn payload_get_url2(d: Seq<u8>, p: int, e: int, v: u8) -> Result<(ActionM, Option<u16>), DecodeError>
{
    match get_u8(d, p, e) {
        Err(x) => Err(x),
        Ok((flags, _)) => match send_vars_method_of(flags) {
            None => Err(DecodeError::InvalidSendVarsMethod),
            Some(m) => Ok(
                (
                    ActionM::GetUrl2 {
                        send_vars_method: m,
                        is_target_sprite: flags & 2 != 0,
                        is_load_vars: flags & 1 != 0,
                    },
                    None,
                ),
            ),
        },
    }
}

pub open spec fn payload_define_function(d: Seq<u8>, p: int, e: int, v: u8) -> Result<(ActionM, Option<u16>), DecodeError>
{
    match get_cstr(d, p, e, v) {
        Err(x) => Err(x),
        Ok((name, q1)) => match get_u16(d, q1, e) {
            Err(x) => Err(x),
            Ok((n, q2)) => match get_cstrs(d, q2, e, v, n as nat) {
                Err(x) => Err(x),
                Ok((params, q3)) => match get_u16(d, q3, e) {
                    Err(x) => Err(x),
                    Ok((len, _)) => Ok(
                        (ActionM::DefineFunction { name, params, actions: seq![] }, Some(len)),
                    ),
                },
            },
        },
    }
}

pub open spec fn payload_if(d: Seq<u8>, p: int, e: int, v: u8) -> Result<(ActionM, Option<u16>), DecodeError>
{
    match get_u16(d, p, e) {
        Err(x) => Err(x),
        Ok((o, _)) => Ok((ActionM::If { offset: signed16(o), jump_to: 0 }, None)),
    }
}

pub open spec fn payload_goto_frame2(d: Seq<u8>, p: int, e: int, v: u8) -> Result<(ActionM, Option<u16>), DecodeError>
{
    match get_u8(d, p, e) {
        Err(x) => Err(x),
        Ok((flags, q)) => if flags & 2 != 0 {
            match get_u16(d, q, e) {
                Err(x) => Err(x),
                Ok((scene, _)) => Ok(
                    (ActionM::GotoFrame2 { set_playing: flags & 1 != 0, scene_offset: scene }, None),
                ),
            }
        } else {
            Ok((ActionM::GotoFrame2 { set_playing: flags & 1 != 0, scene_offset: 0 }, None))
        },
    }
}

/// A zero-operand instruction, or the verbatim payload of an opcode
/// that is not known.
pub open spec fn payload_other(d: Seq<u8>, op: u8, p: int, e: int) -> Result<(ActionM, Option<u16>), DecodeError> {
    match simple_op_of(op) {
        Some(s) => Ok((ActionM::Simple(s), None)),
        None => Ok((ActionM::Unknown { opcode: op, data: d.subrange(p, e) }, None)),
    }
}

/// What a payload `[p, e)` holds for `op`, and, for a function definition,
/// the length of the body that follows the payload.
pub open spec fn get_payload(d: Seq<u8>, op: u8, p: int, e: int, v: u8) -> Result<
    (ActionM, Option<u16>),
    DecodeError,
>
    decreases e - p, 1int,
{
    if op == 0x81 {
        payload_goto_frame(d, p, e, v)
    } else if op == 0x83 {
        payload_get_url(d, p, e, v)
    } else if op == 0x87 {
        payload_store_register(d, p, e, v)
    } else if op == 0x88 {
        payload_constant_pool(d, p, e, v)
    } else if op == 0x8A {
        payload_wait_for_frame(d, p, e, v)
    } else if op == 0x8B {
        payload_set_target(d, p, e, v)
    } else if op == 0x8C {
        payload_goto_label(d, p, e, v)
    } else if op == 0x8D {
        payload_wait_for_frame2(d, p, e, v)
    } else if op == 0x8E {
        payload_define_function2(d, p, e, v)
    } else if op == 0x8F {
        get_try(d, p, e, v)
    } else if op == 0x94 {
        payload_with(d, p, e, v)
    } else if op == 0x96 {
        payload_push(d, p, e, v)
    } else if op == 0x99 {
        payload_jump(d, p, e, v)
    } else if op == 0x9A {
        payload_get_url2(d, p, e, v)
    } else if op == 0x9B {
        payload_define_function(d, p, e, v)
    } else if op == 0x9D {
        payload_if(d, p, e, v)
    } else if op == 0x9F {
        payload_goto_frame2(d, p, e, v)
    } else {
        payload_other(d, op, p, e)
    }
}

/// A `Try` payload: flags, the three span lengths, the catch binding, then
/// the try, catch and finally spans one after another.
pub open spec fn get_try(d: Seq<u8>, p: int, e: int, v: u8) -> Result<(ActionM, Option<u16>), DecodeError>
    decreases e - p, 0int,
{
    match get_u8(d, p, e) {
        Err(x) => Err(x),
        Ok((flags, q1)) => match get_u16(d, q1, e) {
            Err(x) => Err(x),
            Ok((tl, q2)) => match get_u16(d, q2, e) {
                Err(x) => Err(x),
                Ok((cl, q3)) => match get_u16(d, q3, e) {
                    Err(x) => Err(x),
                    Ok((fl, q4)) => match get_catch_var(d, q4, e, v, flags) {
                        Err(x) => Err(x),
                        Ok((var, s)) => if p < s && s + tl + cl + fl <= e {
                            match get_list(d, s, s + tl, v) {
                                Err(x) => Err(x),
                                Ok(body) => match get_list(d, s + tl, s + tl + cl, v) {
                                    Err(x) => Err(x),
                                    Ok(catch_body) => match get_list(
                                        d,
                                        s + tl + cl,
                                        s + tl + cl + fl,
                                        v,
                                    ) {
                                        Err(x) => Err(x),
                                        Ok(finally_body) => Ok(
                                            (
                                                ActionM::Try(
                                                    TryBlockM {
                                                        try_actions: body,
                                                        catch: if flags & 1 != 0 {
                                                            Some((var, catch_body))
                                                        } else {
                                                            None
                                                        },
                                                        finally: if flags & 2 != 0 {
                                                            Some(finally_body)
                                                        } else {
                                                            None
                                                        },
                                                    },
                                                ),
                                                None,
                                            ),
                                        ),
                                    },
                                },
                            }
                        } else {
                            Err(DecodeError::UnexpectedEof)
                        },
                    },
                },
            },
        },
    }
}

/// The catch binding: a name where bit 2 of the flags is set, else a register.
pub open spec fn get_catch_var(d: Seq<u8>, p: int, e: int, v: u8, flags: u8) -> Result<
    (CatchVarM, int),
    DecodeError,
> {
    if flags & 4 != 0 {
        match get_cstr(d, p, e, v) {
            Err(x) => Err(x),
            Ok((s, q)) => Ok((CatchVarM::Var(s), q)),
        }
    } else {
        match get_u8(d, p, e) {
            Err(x) => Err(x),
            Ok((r, q)) => Ok((CatchVarM::Register(r), q)),
        }
    }
}

/// The header of the instruction at `p`: its opcode and where its payload
/// starts and ends. `None` where the range ends before a complete header.
pub open spec fn get_header(d: Seq<u8>, p: int, e: int) -> Option<(u8, int, int)> {
    if p >= e {
        None
    } else if d[p] < LONG_OPCODE {
        Some((d[p], p + 1, p + 1))
    } else if p + 3 <= e {
        Some((d[p], p + 3, p + 3 + le16(d[p + 1], d[p + 2])))
    } else {
        None
    }
}

pub open spec fn attach_body(a: ActionM, body: Seq<ActionM>) -> ActionM {
    match a {
        ActionM::DefineFunction { name, params, .. } => ActionM::DefineFunction {
            name,
            params,
            actions: body,
        },
        ActionM::DefineFunction2(f) => ActionM::DefineFunction2(FunctionM { actions: body, ..f }),
        _ => a,
    }
}

/// One step of a list: `Ok(None)` at the terminator or at the end of the
/// range (a length field cut short by the end is an error), else the instruction, its encoded size, and where the next one starts.
pub open spec fn get_action(d: Seq<u8>, p: int, e: int, v: u8) -> Result<
    Option<(ActionM, int, int)>,
    DecodeError,
>
    decreases e - p, 1int,
{
    match get_header(d, p, e) {
        None => if p >= e {
            Ok(None)
        } else {
            Err(DecodeError::UnexpectedEof)
        },
        Some((op, q, f)) => if op == 0 {
            Ok(None)
        } else if f > e {
            Err(DecodeError::UnexpectedEof)
        } else if p < q {
            match get_payload(d, op, q, f, v) {
                Err(x) => Err(x),
                Ok((a, None)) => Ok(Some((a, f - p, f))),
                Ok((a, Some(n))) => if f + n <= e {
                    match get_list(d, f, f + n, v) {
                        Err(x) => Err(x),
                        Ok(body) => Ok(Some((attach_body(a, body), f - p, f + n))),
                    }
                } else {
                    Err(DecodeError::UnexpectedEof)
                },
            }
        } else {
            Ok(None)
        },
    }
}

/// First pass over a range: the instructions, their encoded sizes, and the
/// position where decoding stopped (after the terminator byte, if any).
pub open spec fn scan(d: Seq<u8>, p: int, e: int, v: u8) -> Result<
    (Seq<ActionM>, Seq<int>, int),
    DecodeError,
>
    decreases e - p, 2int,
{
    match get_action(d, p, e, v) {
        Err(x) => Err(x),
        Ok(None) => match get_header(d, p, e) {
            Some((_, q, _)) => Ok((seq![], seq![], q)),
            None => Ok((seq![], seq![], p)),
        },
        Ok(Some((a, size, next))) => if p < next <= e {
            match scan(d, next, e, v) {
                Err(x) => Err(x),
                Ok((rest, sizes, stop)) => Ok((seq![a] + rest, seq![size] + sizes, stop)),
            }
        } else {
            Ok((seq![a], seq![size], next))
        },
    }
}

/// Position of instruction `k` relative to the start of its list.
pub open spec fn offset_of(sizes: Seq<int>, k: int) -> int
    decreases k,
{
    if k <= 0 {
        0
    } else {
        offset_of(sizes, k - 1) + sizes[k - 1]
    }
}

pub open spec fn branch_offset(a: ActionM) -> Option<i16> {
    match a {
        ActionM::If { offset, .. } => Some(offset),
        ActionM::Jump { offset, .. } => Some(offset),
        _ => None,
    }
}

/// `j` is an instruction index (or the one-past-end index) at byte offset `t`.
pub open spec fn lands_at(sizes: Seq<int>, t: int, j: int) -> bool {
    0 <= j <= sizes.len() && offset_of(sizes, j) == t
}

/// Byte offset that the branch at `i` names: relative to the byte after it.
pub open spec fn branch_target(sizes: Seq<int>, i: int, o: i16) -> int {
    offset_of(sizes, i + 1) + o
}

pub open spec fn resolves(sizes: Seq<int>, i: int, o: i16) -> bool {
    exists|j: int| lands_at(sizes, branch_target(sizes, i, o), j)
}

pub open spec fn target_index(sizes: Seq<int>, i: int, o: i16) -> int {
    choose|j: int| lands_at(sizes, branch_target(sizes, i, o), j)
}

pub open spec fn with_target(a: ActionM, j: int) -> ActionM {
    match a {
        ActionM::If { offset, .. } => ActionM::If { offset, jump_to: j },
        ActionM::Jump { offset, .. } => ActionM::Jump { offset, jump_to: j },
        _ => a,
    }
}

/// The branch at `i` names a byte offset on which no instruction starts.
pub open spec fn unresolved_at(actions: Seq<ActionM>, sizes: Seq<int>, i: int) -> bool {
    match branch_offset(actions[i]) {
        Some(o) => !resolves(sizes, i, o),
        None => false,
    }
}

/// The instruction at `i` with its branch target, if any, filled in.
pub open spec fn resolved_at(actions: Seq<ActionM>, sizes: Seq<int>, i: int) -> ActionM {
    match branch_offset(actions[i]) {
        Some(o) => with_target(actions[i], target_index(sizes, i, o)),
        None => actions[i],
    }
}

/// Second pass: every branch gets the index of the instruction its offset lands on.
pub open spec fn resolve(actions: Seq<ActionM>, sizes: Seq<int>) -> Result<Seq<ActionM>, DecodeError> {
    if exists|i: int| 0 <= i < actions.len() && #[trigger] unresolved_at(actions, sizes, i) {
        Err(DecodeError::UnresolvedBranchTarget)
    } else {
        Ok(Seq::new(actions.len(), |i: int| resolved_at(actions, sizes, i)))
    }
}

/// The instruction list that the range `[p, e)` decodes to.
pub open spec fn get_list(d: Seq<u8>, p: int, e: int, v: u8) -> Result<Seq<ActionM>, DecodeError>
    decreases e - p, 3int,
{
    match scan(d, p, e, v) {
        Err(x) => Err(x),
        Ok((actions, sizes, _)) => resolve(actions, sizes),
    }
}

} // verus!
