use vstd::prelude::*;
use crate::fields::{
    in_range, read_cstr, read_cstrs, read_i16, read_params, read_u16, read_u8, read_values,
    same_view,
};
use crate::grammar::{
    attach_body, bit, branch_offset, branch_target, get_action, get_catch_var, get_header,
    get_list, get_payload, get_try, lands_at, offset_of, payload_constant_pool,
    payload_define_function, payload_define_function2, payload_get_url, payload_get_url2,
    payload_goto_frame, payload_goto_frame2, payload_goto_label, payload_if, payload_jump,
    payload_other, payload_push, payload_set_target, payload_store_register,
    payload_wait_for_frame, payload_wait_for_frame2, payload_with, resolve, resolves, scan,
    resolved_at, target_index, unresolved_at, LONG_OPCODE,
};
use crate::opcode::simple_op;
use crate::types::{
    actions_model, Action, ActionM, CatchVar, DecodeError, Function, SendVarsMethod, TryBlock,
};

verus! {

/// `r` is the list result `s` of the format.
pub open spec fn same_list(r: Result<Vec<Action>, DecodeError>, s: Result<Seq<ActionM>, DecodeError>) -> bool {
    match (r, s) {
        (Ok(x), Ok(y)) => actions_model(x@) == y,
        (Err(a), Err(b)) => a == b,
        _ => false,
    }
}

/// `r` is the payload result `s` of the format.
pub open spec fn same_payload(r: Result<(Action, Option<u16>), DecodeError>, s: Result<(ActionM, Option<u16>), DecodeError>) -> bool {
    match (r, s) {
        (Ok((a, n)), Ok((m, sn))) => a@ == m && n == sn,
        (Err(x), Err(y)) => x == y,
        _ => false,
    }
}

/// The bytes `[p, e)` as a vector.
fn copy_range(d: &[u8], p: usize, e: usize) -> (r: Vec<u8>)
    requires
        p <= e <= d@.len(),
    ensures
        r@ == d@.subrange(p as int, e as int),
{
    let mut b: Vec<u8> = Vec::new();
    let mut k = p;
    while k < e
        invariant
            p <= k <= e <= d@.len(),
            b@ == d@.subrange(p as int, k as int),
        decreases e - k,
    {
        b.push(d[k]);
        k = k + 1;
    }
    b
}

fn flag(flags: u16, k: u16) -> (r: bool)
    requires
        k < 16,
    ensures
        r == bit(flags, k),
{
    flags & (1u16 << k) != 0
}

fn read_catch_var(d: &[u8], p: usize, e: usize, v: u8, flags: u8) -> (r: Result<
    (CatchVar, usize),
    DecodeError,
>)
    requires
        in_range(d@, p as int, e as int),
    ensures
        same_view(r, get_catch_var(d@, p as int, e as int, v, flags)),
        r matches Ok((_, q)) ==> p < q <= e,
{
    if flags & 4 != 0 {
        match read_cstr(d, p, e, v) {
            Ok((s, q)) => Ok((CatchVar::Var(s), q)),
            Err(x) => Err(x),
        }
    } else {
        match read_u8(d, p, e) {
            Ok((x, q)) => Ok((CatchVar::Register(x), q)),
            Err(x) => Err(x),
        }
    }
}

fn attach(a: Action, body: Vec<Action>) -> (r: Action)
    ensures
        r@ == attach_body(a@, actions_model(body@)),
{
    let ghost bm = actions_model(body@);
    match a {
        Action::DefineFunction { name, params, .. } => {
            let r = Action::DefineFunction { name, params, actions: body };
            assert(r@->DefineFunction_actions =~= bm);
            r
        },
        Action::DefineFunction2(f) => {
            let mut f = f;
            f.actions = body;
            let r = Action::DefineFunction2(f);
            assert(r@->DefineFunction2_0.actions =~= bm);
            r
        },
        _ => a,
    }
}

fn read_try(d: &[u8], p: usize, e: usize, v: u8) -> (r: Result<(Action, Option<u16>), DecodeError>)
    requires
        in_range(d@, p as int, e as int),
    ensures
        same_payload(r, get_try(d@, p as int, e as int, v)),
    decreases e - p, 0int,
{
    let (flags, q1) = match read_u8(d, p, e) {
        Ok(x) => x,
        Err(x) => return Err(x),
    };
    let (tl, q2) = match read_u16(d, q1, e) {
        Ok(x) => x,
        Err(x) => return Err(x),
    };
    let (cl, q3) = match read_u16(d, q2, e) {
        Ok(x) => x,
        Err(x) => return Err(x),
    };
    let (fl, q4) = match read_u16(d, q3, e) {
        Ok(x) => x,
        Err(x) => return Err(x),
    };
    let (var, s) = match read_catch_var(d, q4, e, v, flags) {
        Ok(x) => x,
        Err(x) => return Err(x),
    };
    let tl = tl as usize;
    let cl = cl as usize;
    let fl = fl as usize;
    if !(p < s && tl + cl + fl <= e - s) {
        return Err(DecodeError::UnexpectedEof);
    }
    let body = match read_list(d, s, s + tl, v) {
        Ok((x, _)) => x,
        Err(x) => return Err(x),
    };
    let catch_body = match read_list(d, s + tl, s + tl + cl, v) {
        Ok((x, _)) => x,
        Err(x) => return Err(x),
    };
    let finally_body = match read_list(d, s + tl + cl, s + tl + cl + fl, v) {
        Ok((x, _)) => x,
        Err(x) => return Err(x),
    };
    let ghost bm = actions_model(body@);
    let ghost cm = actions_model(catch_body@);
    let ghost fm = actions_model(finally_body@);
    let has_catch = flags & 1 != 0;
    let has_finally = flags & 2 != 0;
    let t = TryBlock {
        try_actions: body,
        catch: if has_catch {
            Some((var, catch_body))
        } else {
            None
        },
        finally: if has_finally {
            Some(finally_body)
        } else {
            None
        },
    };
    let r = Action::Try(t);
    proof {
        let tm = r@->Try_0;
        assert(tm.try_actions =~= bm);
        if has_catch {
            let (_, cs) = tm.catch->0;
            assert(cs =~= cm);
        }
        if has_finally {
            assert(tm.finally->0 =~= fm);
        }
    }
    Ok((r, None))
}

/// The payload `[p, e)` of an instruction with opcode `op`, and for a
/// function definition the length of the body that follows it.
fn read_payload(d: &[u8], op: u8, p: usize, e: usize, v: u8) -> (r: Result<
    (Action, Option<u16>),
    DecodeError,
>)
    requires
        in_range(d@, p as int, e as int),
    ensures
        same_payload(r, get_payload(d@, op, p as int, e as int, v)),
    decreases e - p, 1int,
{
    if op == 0x81 {
        read_goto_frame(d, p, e, v)
    } else if op == 0x83 {
        read_get_url(d, p, e, v)
    } else if op == 0x87 {
        read_store_register(d, p, e, v)
    } else if op == 0x88 {
        read_constant_pool(d, p, e, v)
    } else if op == 0x8A {
        read_wait_for_frame(d, p, e, v)
    } else if op == 0x8B {
        read_set_target(d, p, e, v)
    } else if op == 0x8C {
        read_goto_label(d, p, e, v)
    } else if op == 0x8D {
        read_wait_for_frame2(d, p, e, v)
    } else if op == 0x8E {
        read_define_function_2(d, p, e, v)
    } else if op == 0x8F {
        read_try(d, p, e, v)
    } else if op == 0x94 {
        read_with(d, p, e, v)
    } else if op == 0x96 {
        read_push(d, p, e, v)
    } else if op == 0x99 {
        read_jump(d, p, e, v)
    } else if op == 0x9A {
        read_get_url2(d, p, e, v)
    } else if op == 0x9B {
        read_define_function(d, p, e, v)
    } else if op == 0x9D {
        read_if(d, p, e, v)
    } else if op == 0x9F {
        read_goto_frame2(d, p, e, v)
    } else {
        read_other(d, op, p, e)
    }
}

fn read_goto_frame(d: &[u8], p: usize, e: usize, v: u8) -> (r: Result<(Action, Option<u16>), DecodeError>)
    requires
        in_range(d@, p as int, e as int),
    ensures
        same_payload(r, payload_goto_frame(d@, p as int, e as int, v)),
{
    match read_u16(d, p, e) {
        Ok((n, _)) => Ok((Action::GotoFrame(n), None)),
        Err(x) => Err(x),
    }
}

fn read_get_url(d: &[u8], p: usize, e: usize, v: u8) -> (r: Result<(Action, Option<u16>), DecodeError>)
    requires
        in_range(d@, p as int, e as int),
    ensures
        same_payload(r, payload_get_url(d@, p as int, e as int, v)),
{
    let (url, q) = match read_cstr(d, p, e, v) {
        Ok(x) => x,
        Err(x) => return Err(x),
    };
    match read_cstr(d, q, e, v) {
        Ok((target, _)) => Ok((Action::GetUrl { url, target }, None)),
        Err(x) => Err(x),
    }
}

fn read_store_register(d: &[u8], p: usize, e: usize, v: u8) -> (r: Result<(Action, Option<u16>), DecodeError>)
    requires
        in_range(d@, p as int, e as int),
    ensures
        same_payload(r, payload_store_register(d@, p as int, e as int, v)),
{
    match read_u8(d, p, e) {
        Ok((x, _)) => Ok((Action::StoreRegister(x), None)),
        Err(x) => Err(x),
    }
}

fn read_constant_pool(d: &[u8], p: usize, e: usize, v: u8) -> (r: Result<(Action, Option<u16>), DecodeError>)
    requires
        in_range(d@, p as int, e as int),
    ensures
        same_payload(r, payload_constant_pool(d@, p as int, e as int, v)),
{
    let (n, q) = match read_u16(d, p, e) {
        Ok(x) => x,
        Err(x) => return Err(x),
    };
    match read_cstrs(d, q, e, v, n) {
        Ok((ss, _)) => Ok((Action::ConstantPool(ss), None)),
        Err(x) => Err(x),
    }
}

fn read_wait_for_frame(d: &[u8], p: usize, e: usize, v: u8) -> (r: Result<(Action, Option<u16>), DecodeError>)
    requires
        in_range(d@, p as int, e as int),
    ensures
        same_payload(r, payload_wait_for_frame(d@, p as int, e as int, v)),
{
    let (frame, q) = match read_u16(d, p, e) {
        Ok(x) => x,
        Err(x) => return Err(x),
    };
    match read_u8(d, q, e) {
        Ok((skip, _)) => Ok((Action::WaitForFrame { frame, num_actions_to_skip: skip }, None)),
        Err(x) => Err(x),
    }
}

fn read_set_target(d: &[u8], p: usize, e: usize, v: u8) -> (r: Result<(Action, Option<u16>), DecodeError>)
    requires
        in_range(d@, p as int, e as int),
    ensures
        same_payload(r, payload_set_target(d@, p as int, e as int, v)),
{
    match read_cstr(d, p, e, v) {
        Ok((s, _)) => Ok((Action::SetTarget(s), None)),
        Err(x) => Err(x),
    }
}

fn read_goto_label(d: &[u8], p: usize, e: usize, v: u8) -> (r: Result<(Action, Option<u16>), DecodeError>)
    requires
        in_range(d@, p as int, e as int),
    ensures
        same_payload(r, payload_goto_label(d@, p as int, e as int, v)),
{
    match read_cstr(d, p, e, v) {
        Ok((s, _)) => Ok((Action::GotoLabel(s), None)),
        Err(x) => Err(x),
    }
}

fn read_wait_for_frame2(d: &[u8], p: usize, e: usize, v: u8) -> (r: Result<(Action, Option<u16>), DecodeError>)
    requires
        in_range(d@, p as int, e as int),
    ensures
        same_payload(r, payload_wait_for_frame2(d@, p as int, e as int, v)),
{
    match read_u8(d, p, e) {
        Ok((skip, _)) => Ok((Action::WaitForFrame2 { num_actions_to_skip: skip }, None)),
        Err(x) => Err(x),
    }
}

fn read_with(d: &[u8], p: usize, e: usize, v: u8) -> (r: Result<(Action, Option<u16>), DecodeError>)
    requires
        in_range(d@, p as int, e as int),
    ensures
        same_payload(r, payload_with(d@, p as int, e as int, v)),
    decreases e - p, 0int,
{
    let (n, q) = match read_u16(d, p, e) {
        Ok(x) => x,
        Err(x) => return Err(x),
    };
    if n as usize <= e - q {
        match read_list(d, q, q + n as usize, v) {
            Ok((body, _)) => {
                let ghost bm = actions_model(body@);
                let r = Action::With { actions: body };
                assert(r@->With_actions =~= bm);
                Ok((r, None))
            },
            Err(x) => Err(x),
        }
    } else {
        Err(DecodeError::UnexpectedEof)
    }
}

fn read_push(d: &[u8], p: usize, e: usize, v: u8) -> (r: Result<(Action, Option<u16>), DecodeError>)
    requires
        in_range(d@, p as int, e as int),
    ensures
        same_payload(r, payload_push(d@, p as int, e as int, v)),
{
    match read_values(d, p, e, v) {
        Ok(xs) => Ok((Action::Push(xs), None)),
        Err(x) => Err(x),
    }
}

fn read_jump(d: &[u8], p: usize, e: usize, v: u8) -> (r: Result<(Action, Option<u16>), DecodeError>)
    requires
        in_range(d@, p as int, e as int),
    ensures
        same_payload(r, payload_jump(d@, p as int, e as int, v)),
{
    match read_i16(d, p, e) {
        Ok((o, _)) => Ok((Action::Jump { offset: o, jump_to: 0 }, None)),
        Err(x) => Err(x),
    }
}

fn read_get_url2(d: &[u8], p: usize, e: usize, v: u8) -> (r: Result<(Action, Option<u16>), DecodeError>)
    requires
        in_range(d@, p as int, e as int),
    ensures
        same_payload(r, payload_get_url2(d@, p as int, e as int, v)),
{
    let (flags, _) = match read_u8(d, p, e) {
        Ok(x) => x,
        Err(x) => return Err(x),
    };
    let m = flags >> 6u8;
    let method = if m == 0 {
        SendVarsMethod::DontSend
    } else if m == 1 {
        SendVarsMethod::Get
    } else if m == 2 {
        SendVarsMethod::Post
    } else {
        return Err(DecodeError::InvalidSendVarsMethod);
    };
    Ok(
        (
            Action::GetUrl2 {
                send_vars_method: method,
                is_target_sprite: flags & 2 != 0,
                is_load_vars: flags & 1 != 0,
            },
            None,
        ),
    )
}

fn read_if(d: &[u8], p: usize, e: usize, v: u8) -> (r: Result<(Action, Option<u16>), DecodeError>)
    requires
        in_range(d@, p as int, e as int),
    ensures
        same_payload(r, payload_if(d@, p as int, e as int, v)),
{
    match read_i16(d, p, e) {
        Ok((o, _)) => Ok((Action::If { offset: o, jump_to: 0 }, None)),
        Err(x) => Err(x),
    }
}

fn read_goto_frame2(d: &[u8], p: usize, e: usize, v: u8) -> (r: Result<(Action, Option<u16>), DecodeError>)
    requires
        in_range(d@, p as int, e as int),
    ensures
        same_payload(r, payload_goto_frame2(d@, p as int, e as int, v)),
{
    let (flags, q) = match read_u8(d, p, e) {
        Ok(x) => x,
        Err(x) => return Err(x),
    };
    if flags & 2 != 0 {
        match read_u16(d, q, e) {
            Ok((scene, _)) => Ok(
                (Action::GotoFrame2 { set_playing: flags & 1 != 0, scene_offset: scene }, None),
            ),
            Err(x) => Err(x),
        }
    } else {
        Ok((Action::GotoFrame2 { set_playing: flags & 1 != 0, scene_offset: 0 }, None))
    }
}

fn read_other(d: &[u8], op: u8, p: usize, e: usize) -> (r: Result<(Action, Option<u16>), DecodeError>)
    requires
        in_range(d@, p as int, e as int),
    ensures
        same_payload(r, payload_other(d@, op, p as int, e as int)),
{
    match simple_op(op) {
        Some(s) => Ok((Action::Simple(s), None)),
        None => Ok((Action::Unknown { opcode: op, data: copy_range(d, p, e) }, None)),
    }
}

/// The header of a `DefineFunction`: name and parameter names, then the
/// length of the body that follows the payload.
fn read_define_function(d: &[u8], p: usize, e: usize, v: u8) -> (r: Result<
    (Action, Option<u16>),
    DecodeError,
>)
    requires
        in_range(d@, p as int, e as int),
    ensures
        same_payload(r, payload_define_function(d@, p as int, e as int, v)),
{
    let (name, q1) = match read_cstr(d, p, e, v) {
        Ok(x) => x,
        Err(x) => return Err(x),
    };
    let (n, q2) = match read_u16(d, q1, e) {
        Ok(x) => x,
        Err(x) => return Err(x),
    };
    let (params, q3) = match read_cstrs(d, q2, e, v, n) {
        Ok(x) => x,
        Err(x) => return Err(x),
    };
    match read_u16(d, q3, e) {
        Ok((len, _)) => {
            let r = Action::DefineFunction { name, params, actions: Vec::new() };
            assert(r@->DefineFunction_actions =~= seq![]);
            Ok((r, Some(len)))
        },
        Err(x) => Err(x),
    }
}

/// The header of a `DefineFunction2`: name, parameters, register count and
/// flags, then the length of the body that follows the payload.
fn read_define_function_2(d: &[u8], p: usize, e: usize, v: u8) -> (r: Result<
    (Action, Option<u16>),
    DecodeError,
>)
    requires
        in_range(d@, p as int, e as int),
    ensures
        same_payload(r, payload_define_function2(d@, p as int, e as int, v)),
{
    let (name, q1) = match read_cstr(d, p, e, v) {
        Ok(x) => x,
        Err(x) => return Err(x),
    };
    let (n, q2) = match read_u16(d, q1, e) {
        Ok(x) => x,
        Err(x) => return Err(x),
    };
    let (regs, q3) = match read_u8(d, q2, e) {
        Ok(x) => x,
        Err(x) => return Err(x),
    };
    let (flags, q4) = match read_u16(d, q3, e) {
        Ok(x) => x,
        Err(x) => return Err(x),
    };
    let (params, q5) = match read_params(d, q4, e, v, n) {
        Ok(x) => x,
        Err(x) => return Err(x),
    };
    match read_u16(d, q5, e) {
        Ok((len, _)) => {
            let f = Function {
                name,
                params,
                num_registers: regs,
                preload_global: flag(flags, 8),
                preload_parent: flag(flags, 7),
                preload_root: flag(flags, 6),
                suppress_super: flag(flags, 5),
                preload_super: flag(flags, 4),
                suppress_arguments: flag(flags, 3),
                preload_arguments: flag(flags, 2),
                suppress_this: flag(flags, 1),
                preload_this: flag(flags, 0),
                actions: Vec::new(),
            };
            let r = Action::DefineFunction2(f);
            assert(r@->DefineFunction2_0.actions =~= seq![]);
            Ok((r, Some(len)))
        },
        Err(x) => Err(x),
    }
}

/// One instruction at `p`: `None` at the terminator or at the end of the
/// range; else the instruction and its encoded size. The position returned
/// is where the next instruction starts, or where decoding stopped.
#[verifier::rlimit(50)]
pub fn read_action_at(d: &[u8], p: usize, e: usize, v: u8) -> (r: Result<
    (Option<(Action, usize)>, usize),
    DecodeError,
>)
    requires
        in_range(d@, p as int, e as int),
    ensures
        match (r, get_action(d@, p as int, e as int, v)) {
            (Ok((None, stop)), Ok(None)) => stop as int == match get_header(d@, p as int, e as int) {
                Some((_, q, _)) => q,
                None => p as int,
            },
            (Ok((Some((a, size)), next)), Ok(Some((m, ssize, snext)))) => {
                &&& a@ == m
                &&& size as int == ssize
                &&& next as int == snext
                &&& p < next <= e
                &&& 1 <= size <= next - p
            },
            (Err(x), Err(y)) => x == y,
            _ => false,
        },
        r matches Ok((_, q)) ==> p <= q <= e,
    decreases e - p, 1int,
{
    if p >= e {
        return Ok((None, p));
    }
    let op = d[p];
    let q: usize;
    let f: usize;
    if op < LONG_OPCODE {
        q = p + 1;
        f = p + 1;
    } else if e - p >= 3 {
        q = p + 3;
        f = p + 3 + (d[p + 1] as usize + d[p + 2] as usize * 256);
    } else {
        return Err(DecodeError::UnexpectedEof);
    }
    if op == 0 {
        return Ok((None, q));
    }
    if f > e {
        return Err(DecodeError::UnexpectedEof);
    }
    match read_payload(d, op, q, f, v) {
        Err(x) => Err(x),
        Ok((a, None)) => Ok((Some((a, f - p)), f)),
        Ok((a, Some(n))) => {
            if n as usize <= e - f {
                match read_list(d, f, f + n as usize, v) {
                    Ok((body, _)) => Ok((Some((attach(a, body), f - p)), f + n as usize)),
                    Err(x) => Err(x),
                }
            } else {
                Err(DecodeError::UnexpectedEof)
            }
        },
    }
}

/// Index of `t` in the strictly increasing `positions`, if it is there.
fn find_position(positions: &Vec<usize>, t: usize) -> (r: Option<usize>)
    requires
        forall|a: int, b: int| 0 <= a < b < positions@.len() ==> positions@[a] < positions@[b],
    ensures
        r matches Some(j) ==> j < positions@.len() && positions@[j as int] == t,
        r is None ==> forall|j: int| 0 <= j < positions@.len() ==> positions@[j] != t,
{
    let mut lo: usize = 0;
    let mut hi: usize = positions.len();
    while lo < hi
        invariant
            0 <= lo <= hi <= positions@.len(),
            forall|a: int, b: int| 0 <= a < b < positions@.len() ==> positions@[a] < positions@[b],
            forall|j: int| 0 <= j < lo ==> positions@[j] < t,
            forall|j: int| hi <= j < positions@.len() ==> positions@[j] > t,
        decreases hi - lo,
    {
        let mid = lo + (hi - lo) / 2;
        if positions[mid] == t {
            return Some(mid);
        } else if positions[mid] < t {
            lo = mid + 1;
        } else {
            hi = mid;
        }
    }
    None
}

/// Second pass over a decoded list: every branch gets the index of the
/// instruction on which its offset lands.
fn resolve_branches(acts: Vec<Action>, positions: &Vec<usize>, Ghost(sizes): Ghost<Seq<int>>) -> (r:
    Result<Vec<Action>, DecodeError>)
    requires
        positions@.len() == acts@.len() + 1,
        sizes.len() == acts@.len(),
        forall|k: int| 0 <= k <= sizes.len() ==> positions@[k] as int == offset_of(sizes, k),
        forall|a: int, b: int| 0 <= a < b < positions@.len() ==> positions@[a] < positions@[b],
    ensures
        same_list(r, resolve(actions_model(acts@), sizes)),
{
    let ghost orig = actions_model(acts@);
    let ghost n = acts@.len() as int;
    // First the target of every branch, then the instructions rewritten.
    let mut targets: Vec<usize> = Vec::new();
    let mut i: usize = 0;
    while i < acts.len()
        invariant
            orig == actions_model(acts@),
            acts@.len() == n,
            positions@.len() == n + 1,
            sizes.len() == n,
            0 <= i <= n,
            targets@.len() == i,
            forall|k: int| 0 <= k <= sizes.len() ==> positions@[k] as int == offset_of(sizes, k),
            forall|a: int, b: int| 0 <= a < b < positions@.len() ==> positions@[a] < positions@[b],
            forall|k: int| 0 <= k < i ==> !unresolved_at(orig, sizes, k),
            forall|k: int|
                0 <= k < i ==> (#[trigger] branch_offset(orig[k]) matches Some(o) ==> targets@[k]
                    as int == target_index(sizes, k, o)),
        decreases n - i,
    {
        let off: Option<i16> = match &acts[i] {
            Action::If { offset, .. } => Some(*offset),
            Action::Jump { offset, .. } => Some(*offset),
            _ => None,
        };
        assert(branch_offset(orig[i as int]) == off);
        match off {
            None => {
                targets.push(0);
            },
            Some(off) => {
                let ghost target = branch_target(sizes, i as int, off);
                let base = positions[i + 1];
                let t: Option<usize> = if off >= 0 {
                    base.checked_add(off as usize)
                } else {
                    let m = (0i32 - off as i32) as usize;
                    if m <= base {
                        Some(base - m)
                    } else {
                        None
                    }
                };
                let found = match t {
                    Some(t) => find_position(positions, t),
                    None => None,
                };
                match found {
                    None => {
                        assert(!resolves(sizes, i as int, off)) by {
                            if exists|j: int| lands_at(sizes, target, j) {
                                let j = choose|j: int| lands_at(sizes, target, j);
                                assert(positions@[j] as int == target);
                            }
                        }
                        assert(unresolved_at(orig, sizes, i as int));
                        return Err(DecodeError::UnresolvedBranchTarget);
                    },
                    Some(j) => {
                        assert(lands_at(sizes, target, j as int));
                        let ghost c = target_index(sizes, i as int, off);
                        assert(c == j as int) by {
                            assert(lands_at(sizes, target, c));
                            if c < j {
                                assert(positions@[c] < positions@[j as int]);
                            } else if c > j {
                                assert(positions@[j as int] < positions@[c]);
                            }
                        }
                        targets.push(j);
                    },
                }
            },
        }
        i = i + 1;
    }
    assert(!exists|k: int| 0 <= k < orig.len() && #[trigger] unresolved_at(orig, sizes, k));
    let mut acts = acts;
    let mut i: usize = 0;
    while i < acts.len()
        invariant
            acts@.len() == n,
            targets@.len() == n,
            orig.len() == n,
            0 <= i <= n,
            forall|k: int|
                0 <= k < n ==> (#[trigger] branch_offset(orig[k]) matches Some(o) ==> targets@[k]
                    as int == target_index(sizes, k, o)),
            forall|k: int| 0 <= k < i ==> acts@[k]@ == resolved_at(orig, sizes, k),
            forall|k: int| i <= k < n ==> acts@[k]@ == orig[k],
        decreases n - i,
    {
        let j = targets[i];
        let next: Option<Action> = match &acts[i] {
            Action::If { offset, .. } => Some(Action::If { offset: *offset, jump_to: j }),
            Action::Jump { offset, .. } => Some(Action::Jump { offset: *offset, jump_to: j }),
            _ => None,
        };
        assert(branch_offset(orig[i as int]) matches Some(o) ==> targets@[i as int] as int
            == target_index(sizes, i as int, o));
        match next {
            Some(a) => {
                acts.set(i, a);
            },
            None => {},
        }
        i = i + 1;
    }
    assert(actions_model(acts@) =~= Seq::new(orig.len(), |k: int| resolved_at(orig, sizes, k)));
    Ok(acts)
}

/// The instruction list of the range `[p, e)`, and the position where
/// decoding stopped.
#[verifier::rlimit(50)]
pub fn read_list(d: &[u8], p: usize, e: usize, v: u8) -> (r: Result<(Vec<Action>, usize), DecodeError>)
    requires
        in_range(d@, p as int, e as int),
    ensures
        match r {
            Ok((x, _)) => same_list(Ok(x), get_list(d@, p as int, e as int, v)),
            Err(x) => get_list(d@, p as int, e as int, v) == Err::<Seq<ActionM>, DecodeError>(x),
        },
        r matches Ok((_, stop)) ==> scan(d@, p as int, e as int, v) matches Ok((_, _, s)) && stop
            == s,
        r matches Ok((_, stop)) ==> p <= stop <= e,
    decreases e - p, 3int,
{
    let mut acts: Vec<Action> = Vec::new();
    let mut positions: Vec<usize> = Vec::new();
    positions.push(0);
    let ghost mut sizes: Seq<int> = seq![];
    let mut q = p;
    assert(actions_model(acts@) =~= seq![]);
    loop
        invariant
            p <= q <= e,
            in_range(d@, p as int, e as int),
            positions@.len() == acts@.len() + 1,
            sizes.len() == acts@.len(),
            forall|k: int| 0 <= k <= sizes.len() ==> positions@[k] as int == offset_of(sizes, k),
            forall|a: int, b: int| 0 <= a < b < positions@.len() ==> positions@[a] < positions@[b],
            offset_of(sizes, sizes.len() as int) <= q - p,
            scan(d@, p as int, e as int, v) == match scan(d@, q as int, e as int, v) {
                Ok((rest, ss, st)) => Ok((actions_model(acts@) + rest, sizes + ss, st)),
                Err(x) => Err(x),
            },
        decreases e - q,
    {
        match read_action_at(d, q, e, v) {
            Err(x) => {
                return Err(x);
            },
            Ok((None, st)) => {
                assert(actions_model(acts@) + seq![] =~= actions_model(acts@));
                assert(sizes + seq![] =~= sizes);
                return match resolve_branches(acts, &positions, Ghost(sizes)) {
                    Ok(x) => Ok((x, st)),
                    Err(x) => Err(x),
                };
            },
            Ok((Some((a, size)), next)) => {
                let ghost old_acts = actions_model(acts@);
                let ghost am = a@;
                let ghost old_sizes = sizes;
                let last = positions[positions.len() - 1];
                acts.push(a);
                positions.push(last + size);
                proof {
                    sizes = sizes.push(size as int);
                    assert(old_sizes =~= sizes.subrange(0, old_sizes.len() as int));
                    assert(actions_model(acts@) =~= old_acts.push(am));
                    assert(offset_of(sizes, sizes.len() as int) == offset_of(old_sizes, old_sizes.len() as int) + size) by {
                        assert(offset_of(sizes, old_sizes.len() as int) == offset_of(old_sizes, old_sizes.len() as int)) by {
                            lemma_offset_prefix(old_sizes, sizes, old_sizes.len() as int);
                        }
                    }
                    assert forall|k: int| 0 <= k <= sizes.len() implies positions@[k] as int == offset_of(sizes, k) by {
                        if k < sizes.len() {
                            lemma_offset_prefix(old_sizes, sizes, k);
                        }
                    }
                    match scan(d@, next as int, e as int, v) {
                        Ok((rest, ss, st)) => {
                            assert(old_acts + (seq![am] + rest) =~= actions_model(acts@) + rest);
                            assert(old_sizes + (seq![size as int] + ss) =~= sizes + ss);
                        },
                        Err(_) => {},
                    }
                }
                q = next;
            },
        }
    }
}

/// Offsets up to `k` depend on the sizes before `k` alone.
pub(crate) proof fn lemma_offset_prefix(s: Seq<int>, t: Seq<int>, k: int)
    requires
        0 <= k <= s.len() <= t.len(),
        s == t.subrange(0, s.len() as int),
    ensures
        offset_of(s, k) == offset_of(t, k),
    decreases k,
{
    if k > 0 {
        lemma_offset_prefix(s, t, k - 1);
    }
}

} // verus!
