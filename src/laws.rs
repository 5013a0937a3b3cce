use vstd::prelude::*;
use crate::grammar::{
    branch_offset, branch_target, get_action, get_cstr, get_try, payload_define_function2, get_header, get_list, get_payload, lands_at, le16,
    offset_of, payload_other, resolve, resolved_at, scan, target_index, with_target, LONG_OPCODE,
};
use crate::decode::lemma_offset_prefix;
use crate::opcode::simple_op_of;
use crate::types::{ActionM, CatchVarM};

verus! {

/// Whether an instruction defines a function, whose body follows its payload.
pub open spec fn defines_function(a: ActionM) -> bool {
    a is DefineFunction || a is DefineFunction2
}

proof fn lemma_payload_body(d: Seq<u8>, op: u8, p: int, e: int, v: u8)
    ensures
        get_payload(d, op, p, e, v) matches Ok((a, Some(_))) ==> defines_function(a),
{
    if op == 0x81 {
    } else if op == 0x83 {
    } else if op == 0x87 {
    } else if op == 0x88 {
    } else if op == 0x8A {
    } else if op == 0x8B {
    } else if op == 0x8C {
    } else if op == 0x8D {
    } else if op == 0x8E {
    } else if op == 0x8F {
    } else if op == 0x94 {
    } else if op == 0x96 {
    } else if op == 0x99 {
    } else if op == 0x9A {
    } else if op == 0x9B {
    } else if op == 0x9D {
    } else if op == 0x9F {
    }
}


/// An instruction's encoded size is one byte for an opcode below `0x80`,
/// else three bytes plus the payload length that follows the opcode; the
/// next instruction starts right after those bytes, unless the instruction
/// defines a function, whose body comes first.
pub proof fn lemma_action_size(d: Seq<u8>, p: int, e: int, v: u8)
    requires
        0 <= p <= e <= d.len(),
    ensures
        get_action(d, p, e, v) matches Ok(Some((a, size, next))) ==> {
            &&& d[p] < LONG_OPCODE ==> size == 1
            &&& d[p] >= LONG_OPCODE ==> size == 3 + le16(d[p + 1], d[p + 2])
            &&& p + size <= next <= e
            &&& !defines_function(a) ==> next == p + size
        },
{
    match get_header(d, p, e) {
        Some((op, q, f)) => {
            lemma_payload_body(d, op, q, f, v);
        },
        None => {},
    }
}

proof fn lemma_offset_cons(s: int, ss: Seq<int>, k: int)
    requires
        0 <= k <= ss.len(),
    ensures
        offset_of(seq![s] + ss, k + 1) == s + offset_of(ss, k),
    decreases k,
{
    let x = seq![s] + ss;
    assert(x[0] == s);
    assert(offset_of(x, 1) == offset_of(x, 0) + x[0]);
    if k > 0 {
        lemma_offset_cons(s, ss, k - 1);
        assert(x[k] == ss[k - 1]);
        assert(offset_of(x, k + 1) == offset_of(x, k) + x[k]);
        assert(offset_of(ss, k) == offset_of(ss, k - 1) + ss[k - 1]);
    }
}

/// The sizes of a decoded list are all at least one byte.
pub proof fn lemma_sizes_positive(d: Seq<u8>, p: int, e: int, v: u8)
    requires
        0 <= p <= e <= d.len(),
    ensures
        scan(d, p, e, v) matches Ok((actions, sizes, _)) ==> actions.len() == sizes.len() && forall|k: int|
            0 <= k < sizes.len() ==> sizes[k] >= 1,
    decreases e - p,
{
    lemma_action_size(d, p, e, v);
    match get_action(d, p, e, v) {
        Ok(Some((_, _, next))) => {
            if p < next <= e {
                lemma_sizes_positive(d, next, e, v);
                match scan(d, next, e, v) {
                    Ok((_, ss, _)) => {
                        assert forall|k: int| 0 < k < ss.len() + 1 implies #[trigger] (seq![
                            (next - p) as int,
                        ] + ss)[k] == ss[k - 1] by {}
                    },
                    Err(_) => {},
                }
            }
        },
        _ => {},
    }
}

/// Where no instruction of a list defines a function, there is one size
/// per instruction, and the sizes add up to the bytes consumed from its
/// range before it stopped: either at the end of the range, or at a zero
/// opcode byte, which is consumed as well.
#[verifier::rlimit(100)]
pub proof fn lemma_sizes_sum(d: Seq<u8>, p: int, e: int, v: u8)
    requires
        0 <= p <= e <= d.len(),
        scan(d, p, e, v) matches Ok((actions, _, _)) && forall|k: int|
            0 <= k < actions.len() ==> !defines_function(#[trigger] actions[k]),
    ensures
        scan(d, p, e, v) matches Ok((actions, sizes, stop)) && actions.len() == sizes.len() && {
            let last = p + offset_of(sizes, sizes.len() as int);
            ||| last == e && stop == e
            ||| last < e && d[last] == 0 && stop == last + 1
        },
    decreases e - p,
{
    lemma_action_size(d, p, e, v);
    lemma_sizes_positive(d, p, e, v);
    match get_action(d, p, e, v) {
        Ok(Some((a, size, next))) => {
            assert(p < next);
            if p < next <= e {
                match scan(d, next, e, v) {
                    Ok((rest, ss, st)) => {
                        assert(scan(d, p, e, v) == Ok::<(Seq<ActionM>, Seq<int>, int), crate::types::DecodeError>((seq![a] + rest, seq![size] + ss, st)));
                        assert forall|k: int| 0 <= k < rest.len() implies !defines_function(
                            #[trigger] rest[k],
                        ) by {
                            let acts = scan(d, p, e, v)->Ok_0.0;
                            assert(acts == seq![a] + rest);
                            assert(acts[k + 1] == rest[k]);
                            assert(!defines_function(acts[k + 1]));
                        }
                        let acts = scan(d, p, e, v)->Ok_0.0;
                        assert(acts[0] == a);
                        assert(!defines_function(acts[0]));
                        assert(next == p + size);
                        lemma_sizes_sum(d, next, e, v);
                        lemma_offset_cons(size, ss, ss.len() as int);
                        assert((seq![size] + ss).len() == ss.len() + 1);
                    },
                    Err(_) => {},
                }
            } else {
                assert((seq![a])[0] == a);
                assert(offset_of(seq![size], 1) == offset_of(seq![size], 0) + size);
            }
        },
        Ok(None) => {
            match get_header(d, p, e) {
                Some((op, q, _)) => {
                    assert(op == 0);
                    assert(q == p + 1);
                },
                None => {},
            }
            assert(offset_of(seq![], 0) == 0);
        },
        _ => {},
    }
}

proof fn lemma_offsets_increase(sizes: Seq<int>, a: int, b: int)
    requires
        0 <= a < b <= sizes.len(),
        forall|k: int| 0 <= k < sizes.len() ==> sizes[k] >= 1,
    ensures
        offset_of(sizes, a) < offset_of(sizes, b),
    decreases b - a,
{
    if b > a + 1 {
        lemma_offsets_increase(sizes, a, b - 1);
    }
}

proof fn lemma_target_unique(sizes: Seq<int>, t: int, j: int)
    requires
        forall|k: int| 0 <= k < sizes.len() ==> sizes[k] >= 1,
        lands_at(sizes, t, j),
    ensures
        forall|c: int| lands_at(sizes, t, c) ==> c == j,
{
    assert forall|c: int| lands_at(sizes, t, c) implies c == j by {
        if c < j {
            lemma_offsets_increase(sizes, c, j);
        } else if c > j {
            lemma_offsets_increase(sizes, j, c);
        }
    }
}

/// A branch at `i` whose offset lands on instruction `j` of its own list is
/// resolved to index `j`.
proof fn lemma_resolved_to(d: Seq<u8>, p: int, e: int, v: u8, i: int, j: int)
    requires
        0 <= p <= e <= d.len(),
        match scan(d, p, e, v) {
            Ok((actions, sizes, _)) => 0 <= i < actions.len() && match branch_offset(actions[i]) {
                Some(o) => lands_at(sizes, branch_target(sizes, i, o), j),
                None => false,
            },
            Err(_) => false,
        },
        get_list(d, p, e, v) is Ok,
    ensures
        scan(d, p, e, v) matches Ok((actions, _, _)) && get_list(d, p, e, v) matches Ok(list)
            && list[i] == with_target(actions[i], j),
{
    lemma_sizes_positive(d, p, e, v);
    let (actions, sizes, _) = scan(d, p, e, v)->Ok_0;
    let o = branch_offset(actions[i])->Some_0;
    lemma_target_unique(sizes, branch_target(sizes, i, o), j);
    assert(target_index(sizes, i, o) == j);
    let list = resolve(actions, sizes)->Ok_0;
    assert(list[i] == resolved_at(actions, sizes, i));
}

/// A branch with offset zero, which lands on the byte right after it, is
/// resolved to the index of the next instruction.
pub proof fn lemma_zero_offset_targets_next(d: Seq<u8>, p: int, e: int, v: u8, i: int)
    requires
        0 <= p <= e <= d.len(),
        scan(d, p, e, v) matches Ok((actions, _, _)) && 0 <= i < actions.len() && branch_offset(
            actions[i],
        ) == Some(0i16),
        get_list(d, p, e, v) is Ok,
    ensures
        scan(d, p, e, v) matches Ok((actions, _, _)) && get_list(d, p, e, v) matches Ok(list)
            && list[i] == with_target(actions[i], i + 1),
{
    lemma_sizes_positive(d, p, e, v);
    let (actions, sizes, _) = scan(d, p, e, v)->Ok_0;
    assert(lands_at(sizes, branch_target(sizes, i, 0i16), i + 1));
    lemma_resolved_to(d, p, e, v, i, i + 1);
}

/// A branch whose offset is minus its own encoded size lands on its own
/// first byte and is resolved to its own index.
pub proof fn lemma_self_loop(d: Seq<u8>, p: int, e: int, v: u8, i: int)
    requires
        0 <= p <= e <= d.len(),
        match scan(d, p, e, v) {
            Ok((actions, sizes, _)) => 0 <= i < actions.len() && match branch_offset(actions[i]) {
                Some(o) => o == -sizes[i],
                None => false,
            },
            Err(_) => false,
        },
        get_list(d, p, e, v) is Ok,
    ensures
        scan(d, p, e, v) matches Ok((actions, _, _)) && get_list(d, p, e, v) matches Ok(list)
            && list[i] == with_target(actions[i], i),
{
    lemma_sizes_positive(d, p, e, v);
    let (actions, sizes, _) = scan(d, p, e, v)->Ok_0;
    assert(offset_of(sizes, i + 1) == offset_of(sizes, i) + sizes[i]);
    assert(lands_at(sizes, branch_target(sizes, i, branch_offset(actions[i])->Some_0), i));
    lemma_resolved_to(d, p, e, v, i, i);
}

/// The opcodes whose payload has a layout of its own.
pub open spec fn has_operands(op: u8) -> bool {
    op == 0x81 || op == 0x83 || op == 0x87 || op == 0x88 || op == 0x8A || op == 0x8B || op == 0x8C
        || op == 0x8D || op == 0x8E || op == 0x8F || op == 0x94 || op == 0x96 || op == 0x99 || op
        == 0x9A || op == 0x9B || op == 0x9D || op == 0x9F
}

/// An opcode from `0x80` on that no instruction uses decodes, whatever its
/// payload, to the catch-all form holding the opcode and the payload bytes,
/// and its size is three plus the payload length.
pub proof fn lemma_unknown_verbatim(d: Seq<u8>, p: int, e: int, v: u8)
    requires
        0 <= p,
        p + 3 <= e <= d.len(),
        d[p] >= LONG_OPCODE,
        !has_operands(d[p]),
        simple_op_of(d[p]) is None,
        p + 3 + le16(d[p + 1], d[p + 2]) <= e,
    ensures
        get_action(d, p, e, v) == Ok::<Option<(ActionM, int, int)>, crate::types::DecodeError>(
            Some(
                (
                    ActionM::Unknown {
                        opcode: d[p],
                        data: d.subrange(p + 3, p + 3 + le16(d[p + 1], d[p + 2])),
                    },
                    3 + le16(d[p + 1], d[p + 2]),
                    p + 3 + le16(d[p + 1], d[p + 2]),
                ),
            ),
        ),
{
    let f = p + 3 + le16(d[p + 1], d[p + 2]);
    assert(get_payload(d, d[p], p + 3, f, v) == payload_other(d, d[p], p + 3, f));
}

/// A range that starts with the terminator decodes to no instruction.
pub proof fn lemma_terminator_only(d: Seq<u8>, p: int, e: int, v: u8)
    requires
        0 <= p < e <= d.len(),
        d[p] == 0,
    ensures
        get_list(d, p, e, v) == Ok::<Seq<ActionM>, crate::types::DecodeError>(seq![]),
{
    assert(scan(d, p, e, v) == Ok::<(Seq<ActionM>, Seq<int>, int), crate::types::DecodeError>((seq![], seq![], p + 1)));
    let none: Seq<ActionM> = seq![];
    let no_sizes: Seq<int> = seq![];
    assert(!exists|i: int| 0 <= i < none.len() && #[trigger] crate::grammar::unresolved_at(none, no_sizes, i));
    assert(resolve(none, no_sizes)->Ok_0 =~= none);
}

/// A `DefineFunction2` whose flag word has only the bit for preloading the
/// global object set gives a function with that flag and none of the others.
pub proof fn lemma_preload_global_only(d: Seq<u8>, p: int, e: int, v: u8)
    requires
        0 <= p <= e <= d.len(),
        get_cstr(d, p, e, v) matches Ok((_, q)) && q + 5 <= e && le16(d[q + 3], d[q + 4])
            == 0x0100,
        payload_define_function2(d, p, e, v) is Ok,
    ensures
        match payload_define_function2(d, p, e, v) {
            Ok((ActionM::DefineFunction2(f), _)) => {
                &&& f.preload_global
                &&& !f.preload_parent
                &&& !f.preload_root
                &&& !f.suppress_super
                &&& !f.preload_super
                &&& !f.suppress_arguments
                &&& !f.preload_arguments
                &&& !f.suppress_this
                &&& !f.preload_this
            },
            _ => false,
        },
{
    let w: u16 = 0x0100;
    assert(w == 0x0100u16 ==> w & (1u16 << 8u16) != 0 && w & (1u16 << 7u16) == 0 && w & (1u16
        << 6u16) == 0 && w & (1u16 << 5u16) == 0 && w & (1u16 << 4u16) == 0 && w & (1u16 << 3u16)
        == 0 && w & (1u16 << 2u16) == 0 && w & (1u16 << 1u16) == 0 && w & (1u16 << 0u16) == 0)
        by (bit_vector);
}

/// A `Try` whose flag byte sets catch, finally and a named catch variable
/// decodes to a block that catches into the name read after the three span
/// lengths, and that has a finally block.
pub proof fn lemma_try_named_catch(d: Seq<u8>, p: int, e: int, v: u8)
    requires
        0 <= p < e <= d.len(),
        d[p] & 7 == 7,
        get_try(d, p, e, v) is Ok,
    ensures
        match get_try(d, p, e, v) {
            Ok((ActionM::Try(t), _)) => match (t.catch, get_cstr(d, p + 7, e, v)) {
                (Some((CatchVarM::Var(n), _)), Ok((name, _))) => n == name && t.finally is Some,
                _ => false,
            },
            _ => false,
        },
{
    let f = d[p];
    assert(f & 7 == 7 ==> f & 4 != 0 && f & 1 != 0 && f & 2 != 0) by (bit_vector);
}

/// Where the instruction at `x` ends by `e1`, its decoding does not depend on
/// whether the range ends at `e1` or further on.
proof fn lemma_action_within(d: Seq<u8>, x: int, e1: int, e2: int, v: u8)
    requires
        0 <= x <= e1 <= e2 <= d.len(),
        get_action(d, x, e2, v) matches Ok(Some((_, _, next))) && next <= e1,
    ensures
        get_action(d, x, e1, v) == get_action(d, x, e2, v),
{
    lemma_action_size(d, x, e2, v);
}

/// Position after the first `k` instructions decoded from `p`.
pub open spec fn after_k(d: Seq<u8>, p: int, e: int, v: u8, k: nat) -> int
    decreases k,
{
    if k == 0 {
        p
    } else {
        match get_action(d, p, e, v) {
            Ok(Some((_, _, next))) => after_k(d, next, e, v, (k - 1) as nat),
            _ => p,
        }
    }
}

/// Cutting a range at the boundary after its first `k` instructions: the
/// first pass over the shorter range gives exactly those instructions and
/// their sizes, and stops at the cut, reading nothing beyond it.
#[verifier::rlimit(100)]
pub proof fn lemma_scan_prefix(d: Seq<u8>, p: int, e: int, v: u8, k: nat)
    requires
        0 <= p <= e <= d.len(),
        scan(d, p, e, v) matches Ok((actions, _, _)) && k <= actions.len(),
    ensures
        p <= after_k(d, p, e, v, k) <= e,
        scan(d, p, e, v) matches Ok((actions, sizes, _)) && scan(d, p, after_k(d, p, e, v, k), v)
            == Ok::<(Seq<ActionM>, Seq<int>, int), crate::types::DecodeError>(
            (actions.take(k as int), sizes.take(k as int), after_k(d, p, e, v, k)),
        ),
    decreases k,
{
    lemma_sizes_positive(d, p, e, v);
    if k == 0 {
        let (actions, sizes, _) = scan(d, p, e, v)->Ok_0;
        assert(get_header(d, p, p) is None);
        assert(get_action(d, p, p, v) == Ok::<Option<(ActionM, int, int)>, crate::types::DecodeError>(None));
        assert(actions.take(0) =~= seq![]);
        assert(sizes.take(0) =~= seq![]);
    } else {
        lemma_action_size(d, p, e, v);
        match get_action(d, p, e, v) {
            Ok(Some((a, size, next))) => {
                assert(p < next <= e);
                let (rest, ss, st) = scan(d, next, e, v)->Ok_0;
                assert(scan(d, p, e, v) == Ok::<(Seq<ActionM>, Seq<int>, int), crate::types::DecodeError>((seq![a] + rest, seq![size] + ss, st)));
                lemma_scan_prefix(d, next, e, v, (k - 1) as nat);
                let c = after_k(d, p, e, v, k);
                assert(c == after_k(d, next, e, v, (k - 1) as nat));
                lemma_action_within(d, p, c, e, v);
                assert(get_action(d, p, c, v) == get_action(d, p, e, v));
                assert(next <= c);
                assert((seq![a] + rest).take(k as int) =~= seq![a] + rest.take(k - 1));
                assert((seq![size] + ss).take(k as int) =~= seq![size] + ss.take(k - 1));
            },
            _ => {},
        }
    }
}

/// Cutting a range at the boundary after its first `k` instructions, where
/// every branch among those lands within them (or right after them): the
/// shorter range decodes to the first `k` instructions of the whole list,
/// with the same branch targets.
#[verifier::rlimit(100)]
pub proof fn lemma_list_prefix(d: Seq<u8>, p: int, e: int, v: u8, k: nat)
    requires
        0 <= p <= e <= d.len(),
        get_list(d, p, e, v) is Ok,
        scan(d, p, e, v) matches Ok((actions, sizes, _)) && k <= actions.len() && forall|i: int|
            0 <= i < k ==> (#[trigger] branch_offset(actions[i]) matches Some(o) ==> target_index(
                sizes,
                i,
                o,
            ) <= k),
    ensures
        get_list(d, p, after_k(d, p, e, v, k), v) == Ok::<Seq<ActionM>, crate::types::DecodeError>(
            get_list(d, p, e, v)->Ok_0.take(k as int),
        ),
{
    lemma_scan_prefix(d, p, e, v, k);
    lemma_sizes_positive(d, p, e, v);
    let (actions, sizes, _) = scan(d, p, e, v)->Ok_0;
    let list = get_list(d, p, e, v)->Ok_0;
    let a2 = actions.take(k as int);
    let s2 = sizes.take(k as int);
    assert(s2 =~= sizes.subrange(0, k as int));
    assert forall|j: int| 0 <= j <= k implies offset_of(s2, j) == offset_of(sizes, j) by {
        lemma_offset_prefix(s2, sizes, j);
    }
    assert forall|k2: int| 0 <= k2 < s2.len() implies s2[k2] >= 1 by {}
    assert forall|i: int|
        #![trigger crate::grammar::unresolved_at(a2, s2, i)]
        #![trigger resolved_at(a2, s2, i)]
        0 <= i < k implies !crate::grammar::unresolved_at(a2, s2, i) && resolved_at(a2, s2, i)
            == list[i] by {
        assert(a2[i] == actions[i]);
        assert(!crate::grammar::unresolved_at(actions, sizes, i));
        assert(list[i] == resolved_at(actions, sizes, i));
        match branch_offset(actions[i]) {
            Some(o) => {
                let j = target_index(sizes, i, o);
                let t = branch_target(sizes, i, o);
                assert(lands_at(sizes, t, j));
                assert(j <= k);
                assert(branch_target(s2, i, o) == t);
                assert(lands_at(s2, t, j));
                lemma_target_unique(s2, t, j);
                assert(target_index(s2, i, o) == j);
            },
            None => {},
        }
    }
    assert(a2.len() == k);
    assert(!exists|i: int| 0 <= i < a2.len() && #[trigger] crate::grammar::unresolved_at(a2, s2, i));
    assert(resolve(a2, s2)->Ok_0 =~= list.take(k as int));
}

} // verus!
