use vstd::prelude::*;
use crate::grammar::{
    first_nul, get_cstr, get_cstrs, get_params, get_u16, get_u32, get_u64, get_u8, get_value,
    get_values, le32, signed16,
};
use crate::text::{decode_string, MAX_INPUT};
use crate::types::{
    params_model, strings_model, values_model, DecodeError, FunctionParam, Value,
};

verus! {

/// `r` is the result `s` of the format, the position as a `usize`.
pub open spec fn same<T>(r: Result<(T, usize), DecodeError>, s: Result<(T, int), DecodeError>) -> bool {
    match (r, s) {
        (Ok((x, q)), Ok((y, t))) => x == y && q as int == t,
        (Err(a), Err(b)) => a == b,
        _ => false,
    }
}

/// As [`same`], through the value's view.
pub open spec fn same_view<T: View>(
    r: Result<(T, usize), DecodeError>,
    s: Result<(T::V, int), DecodeError>,
) -> bool {
    match (r, s) {
        (Ok((x, q)), Ok((y, t))) => x@ == y && q as int == t,
        (Err(a), Err(b)) => a == b,
        _ => false,
    }
}

/// The range `[p, e)` lies within `d`, and `d` is short enough to decode.
pub open spec fn in_range(d: Seq<u8>, p: int, e: int) -> bool {
    0 <= p <= e <= d.len() && d.len() <= MAX_INPUT
}

pub fn read_u8(d: &[u8], p: usize, e: usize) -> (r: Result<(u8, usize), DecodeError>)
    requires
        in_range(d@, p as int, e as int),
    ensures
        same(r, get_u8(d@, p as int, e as int)),
{
    if p < e {
        Ok((d[p], p + 1))
    } else {
        Err(DecodeError::UnexpectedEof)
    }
}

pub fn read_u16(d: &[u8], p: usize, e: usize) -> (r: Result<(u16, usize), DecodeError>)
    requires
        in_range(d@, p as int, e as int),
    ensures
        same(r, get_u16(d@, p as int, e as int)),
{
    if e - p >= 2 {
        Ok((d[p] as u16 + d[p + 1] as u16 * 256, p + 2))
    } else {
        Err(DecodeError::UnexpectedEof)
    }
}

pub fn read_i16(d: &[u8], p: usize, e: usize) -> (r: Result<(i16, usize), DecodeError>)
    requires
        in_range(d@, p as int, e as int),
    ensures
        same(
            r,
            match get_u16(d@, p as int, e as int) {
                Ok((u, q)) => Ok((signed16(u), q)),
                Err(x) => Err(x),
            },
        ),
{
    match read_u16(d, p, e) {
        Ok((u, q)) => {
            let s: i16 = if u < 0x8000 {
                u as i16
            } else {
                (u as i32 - 0x1_0000) as i16
            };
            Ok((s, q))
        },
        Err(x) => Err(x),
    }
}

fn le32_at(d: &[u8], p: usize) -> (r: u32)
    requires
        p + 4 <= d@.len(),
    ensures
        r == le32(d@, p as int),
{
    d[p] as u32 + d[p + 1] as u32 * 0x100 + d[p + 2] as u32 * 0x1_0000 + d[p + 3] as u32
        * 0x100_0000
}

pub fn read_u32(d: &[u8], p: usize, e: usize) -> (r: Result<(u32, usize), DecodeError>)
    requires
        in_range(d@, p as int, e as int),
    ensures
        same(r, get_u32(d@, p as int, e as int)),
{
    if e - p >= 4 {
        Ok((le32_at(d, p), p + 4))
    } else {
        Err(DecodeError::UnexpectedEof)
    }
}

pub fn read_u64(d: &[u8], p: usize, e: usize) -> (r: Result<(u64, usize), DecodeError>)
    requires
        in_range(d@, p as int, e as int),
    ensures
        same(r, get_u64(d@, p as int, e as int)),
{
    if e - p >= 8 {
        let lo = le32_at(d, p);
        let hi = le32_at(d, p + 4);
        Ok((lo as u64 + hi as u64 * 0x1_0000_0000, p + 8))
    } else {
        Err(DecodeError::UnexpectedEof)
    }
}

/// A zero-terminated string at `p`.
pub fn read_cstr(d: &[u8], p: usize, e: usize, v: u8) -> (r: Result<(String, usize), DecodeError>)
    requires
        in_range(d@, p as int, e as int),
    ensures
        same_view(r, get_cstr(d@, p as int, e as int, v)),
        r matches Ok((_, q)) ==> p < q <= e,
{
    let mut z = p;
    while z < e && d[z] != 0
        invariant
            p <= z <= e <= d@.len(),
            forall|k: int| p <= k < z ==> d@[k] != 0,
        decreases e - z,
    {
        z = z + 1;
    }
    if z == e {
        assert(!exists|y: int| first_nul(d@, p as int, e as int, y));
        return Err(DecodeError::UnexpectedEof);
    }
    assert(first_nul(d@, p as int, e as int, z as int));
    let ghost c = choose|y: int| first_nul(d@, p as int, e as int, y);
    assert(c == z as int) by {
        if c < z {
            assert(d@[c] != 0);
        } else if c > z {
            assert(d@[z as int] != 0);
        }
    }
    let mut b: Vec<u8> = Vec::new();
    let mut k = p;
    while k < z
        invariant
            p <= k <= z < e <= d@.len(),
            b@ == d@.subrange(p as int, k as int),
        decreases z - k,
    {
        b.push(d[k]);
        k = k + 1;
    }
    assert(b@ == d@.subrange(p as int, z as int));
    match decode_string(b, v) {
        Some(s) => Ok((s, z + 1)),
        None => Err(DecodeError::InvalidString),
    }
}

proof fn lemma_cstrs_err(d: Seq<u8>, p: int, e: int, v: u8, i: nat, n: nat)
    requires
        i <= n,
        get_cstrs(d, p, e, v, i) is Err,
    ensures
        get_cstrs(d, p, e, v, n) == get_cstrs(d, p, e, v, i),
    decreases n,
{
    if n > i {
        lemma_cstrs_err(d, p, e, v, i, (n - 1) as nat);
    }
}

proof fn lemma_params_err(d: Seq<u8>, p: int, e: int, v: u8, i: nat, n: nat)
    requires
        i <= n,
        get_params(d, p, e, v, i) is Err,
    ensures
        get_params(d, p, e, v, n) == get_params(d, p, e, v, i),
    decreases n,
{
    if n > i {
        lemma_params_err(d, p, e, v, i, (n - 1) as nat);
    }
}

/// `n` zero-terminated strings in a row.
pub fn read_cstrs(d: &[u8], p: usize, e: usize, v: u8, n: u16) -> (r: Result<
    (Vec<String>, usize),
    DecodeError,
>)
    requires
        in_range(d@, p as int, e as int),
    ensures
        match (r, get_cstrs(d@, p as int, e as int, v, n as nat)) {
            (Ok((x, q)), Ok((y, t))) => strings_model(x@) == y && q as int == t && p <= q <= e,
            (Err(a), Err(b)) => a == b,
            _ => false,
        },
{
    let mut out: Vec<String> = Vec::new();
    assert(strings_model(out@) =~= seq![]);
    let mut q = p;
    let mut i: u16 = 0;
    while i < n
        invariant
            i <= n,
            p <= q <= e,
            in_range(d@, p as int, e as int),
            get_cstrs(d@, p as int, e as int, v, i as nat) == Ok::<(Seq<Seq<char>>, int), DecodeError>((strings_model(out@), q as int)),
        decreases n - i,
    {
        match read_cstr(d, q, e, v) {
            Ok((s, t)) => {
                let ghost old_out = out@;
                out.push(s);
                assert(strings_model(out@) =~= strings_model(old_out).push(s@));
                q = t;
            },
            Err(x) => {
                proof {
                    lemma_cstrs_err(d@, p as int, e as int, v, (i + 1) as nat, n as nat);
                }
                return Err(x);
            },
        }
        i = i + 1;
    }
    Ok((out, q))
}

/// `n` parameters of a `DefineFunction2`.
pub fn read_params(d: &[u8], p: usize, e: usize, v: u8, n: u16) -> (r: Result<
    (Vec<FunctionParam>, usize),
    DecodeError,
>)
    requires
        in_range(d@, p as int, e as int),
    ensures
        match (r, get_params(d@, p as int, e as int, v, n as nat)) {
            (Ok((x, q)), Ok((y, t))) => params_model(x@) == y && q as int == t && p <= q <= e,
            (Err(a), Err(b)) => a == b,
            _ => false,
        },
{
    let mut out: Vec<FunctionParam> = Vec::new();
    assert(params_model(out@) =~= seq![]);
    let mut q = p;
    let mut i: u16 = 0;
    while i < n
        invariant
            i <= n,
            p <= q <= e,
            in_range(d@, p as int, e as int),
            get_params(d@, p as int, e as int, v, i as nat) == Ok::<(Seq<crate::types::ParamM>, int), DecodeError>((params_model(out@), q as int)),
        decreases n - i,
    {
        let reg = match read_u8(d, q, e) {
            Ok((x, t)) => {
                q = t;
                x
            },
            Err(x) => {
                proof {
                    lemma_params_err(d@, p as int, e as int, v, (i + 1) as nat, n as nat);
                }
                return Err(x);
            },
        };
        match read_cstr(d, q, e, v) {
            Ok((s, t)) => {
                let ghost old_out = out@;
                let param = FunctionParam {
                    name: s,
                    register_index: if reg == 0 {
                        None
                    } else {
                        Some(reg)
                    },
                };
                out.push(param);
                assert(params_model(out@) =~= params_model(old_out).push(param@));
                q = t;
            },
            Err(x) => {
                proof {
                    lemma_params_err(d@, p as int, e as int, v, (i + 1) as nat, n as nat);
                }
                return Err(x);
            },
        }
        i = i + 1;
    }
    Ok((out, q))
}

/// One push operand at `p`.
pub fn read_push_value(d: &[u8], p: usize, e: usize, v: u8) -> (r: Result<(Value, usize), DecodeError>)
    requires
        in_range(d@, p as int, e as int),
    ensures
        same_view(r, get_value(d@, p as int, e as int, v)),
        r matches Ok((_, q)) ==> p < q <= e,
{
    let (tag, q) = match read_u8(d, p, e) {
        Ok(x) => x,
        Err(x) => return Err(x),
    };
    if tag == 0 {
        match read_cstr(d, q, e, v) {
            Ok((s, r)) => Ok((Value::Str(s), r)),
            Err(x) => Err(x),
        }
    } else if tag == 1 {
        match read_u32(d, q, e) {
            Ok((x, r)) => Ok((Value::Float(x), r)),
            Err(x) => Err(x),
        }
    } else if tag == 2 {
        Ok((Value::Null, q))
    } else if tag == 3 {
        Ok((Value::Undefined, q))
    } else if tag == 4 {
        match read_u8(d, q, e) {
            Ok((x, r)) => Ok((Value::Register(x), r)),
            Err(x) => Err(x),
        }
    } else if tag == 5 {
        match read_u8(d, q, e) {
            Ok((x, r)) => Ok((Value::Bool(x != 0), r)),
            Err(x) => Err(x),
        }
    } else if tag == 6 {
        match read_u64(d, q, e) {
            Ok((x, r)) => Ok((Value::Double(x), r)),
            Err(x) => Err(x),
        }
    } else if tag == 7 {
        match read_u32(d, q, e) {
            Ok((x, r)) => Ok((Value::Int(x), r)),
            Err(x) => Err(x),
        }
    } else if tag == 8 {
        match read_u8(d, q, e) {
            Ok((x, r)) => Ok((Value::ConstantPool(x as u16), r)),
            Err(x) => Err(x),
        }
    } else if tag == 9 {
        match read_u16(d, q, e) {
            Ok((x, r)) => Ok((Value::ConstantPool(x), r)),
            Err(x) => Err(x),
        }
    } else {
        Err(DecodeError::InvalidPushValueType)
    }
}

/// Push operands from `p` until the payload ends at `e`.
pub fn read_values(d: &[u8], p: usize, e: usize, v: u8) -> (r: Result<Vec<Value>, DecodeError>)
    requires
        in_range(d@, p as int, e as int),
    ensures
        match (r, get_values(d@, p as int, e as int, v)) {
            (Ok(x), Ok(y)) => values_model(x@) == y,
            (Err(a), Err(b)) => a == b,
            _ => false,
        },
{
    let mut out: Vec<Value> = Vec::new();
    let mut q = p;
    while q < e
        invariant
            p <= q <= e,
            in_range(d@, p as int, e as int),
            get_values(d@, p as int, e as int, v) == match get_values(d@, q as int, e as int, v) {
                Ok(xs) => Ok(values_model(out@) + xs),
                Err(x) => Err(x),
            },
        decreases e - q,
    {
        match read_push_value(d, q, e, v) {
            Ok((x, t)) => {
                let ghost old_out = out@;
                let ghost xm = x@;
                out.push(x);
                assert(values_model(out@) =~= values_model(old_out).push(xm));
                proof {
                    match get_values(d@, t as int, e as int, v) {
                        Ok(xs) => {
                            assert(values_model(old_out) + (seq![xm] + xs) =~= values_model(out@)
                                + xs);
                        },
                        Err(_) => {},
                    }
                }
                q = t;
            },
            Err(DecodeError::UnexpectedEof) => {
                assert(values_model(out@) + seq![] =~= values_model(out@));
                return Ok(out);
            },
            Err(x) => {
                return Err(x);
            },
        }
    }
    assert(values_model(out@) + seq![] =~= values_model(out@));
    Ok(out)
}

} // verus!
