use swf::{
    Action, CatchVar, DecodeError, Function, FunctionParam, Reader, SendVarsMethod, SimpleOp,
    TryBlock, Value,
};

fn list(bytes: &[u8], version: u8) -> Result<Vec<Action>, DecodeError> {
    Reader::new(bytes, version).read_action_list()
}

fn one(bytes: &[u8], version: u8) -> (Action, usize) {
    Reader::new(bytes, version).read_action().unwrap().unwrap()
}

#[test]
fn read_action() {
    let cases: Vec<(u8, Action, Vec<u8>)> = vec![
        (1, Action::Simple(SimpleOp::Add), vec![0x0A]),
        (5, Action::Simple(SimpleOp::Add2), vec![0x47]),
        (4, Action::Simple(SimpleOp::NextFrame), vec![0x04]),
        (5, Action::Simple(SimpleOp::Call), vec![0x9E, 0, 0]),
        (3, Action::GotoFrame(11), vec![0x81, 2, 0, 11, 0]),
        (
            3,
            Action::GetUrl { url: "a".to_string(), target: "b".to_string() },
            vec![0x83, 4, 0, b'a', 0, b'b', 0],
        ),
        (
            4,
            Action::GetUrl2 {
                send_vars_method: SendVarsMethod::Post,
                is_target_sprite: true,
                is_load_vars: false,
            },
            vec![0x9A, 1, 0, 0b1000_0010],
        ),
        (
            4,
            Action::GotoFrame2 { set_playing: true, scene_offset: 0 },
            vec![0x9F, 1, 0, 0b01],
        ),
        (
            4,
            Action::GotoFrame2 { set_playing: false, scene_offset: 259 },
            vec![0x9F, 3, 0, 0b10, 3, 1],
        ),
        (3, Action::GotoLabel("x".to_string()), vec![0x8C, 2, 0, b'x', 0]),
        (5, Action::StoreRegister(3), vec![0x87, 1, 0, 3]),
        (3, Action::SetTarget("t".to_string()), vec![0x8B, 2, 0, b't', 0]),
        (
            3,
            Action::WaitForFrame { frame: 4, num_actions_to_skip: 2 },
            vec![0x8A, 3, 0, 4, 0, 2],
        ),
        (4, Action::WaitForFrame2 { num_actions_to_skip: 7 }, vec![0x8D, 1, 0, 7]),
        (4, Action::If { offset: 0, jump_to: 0 }, vec![0x9D, 2, 0, 0, 0]),
        (4, Action::Jump { offset: -5, jump_to: 0 }, vec![0x99, 2, 0, 0xFB, 0xFF]),
    ];
    for (version, expected, bytes) in cases {
        let (action, _) = one(&bytes, version);
        assert_eq!(action, expected, "bytes {:?}", bytes);
    }
}

#[test]
fn sizes_are_one_or_three_plus_payload() {
    assert_eq!(one(&[0x07], 6).1, 1);
    assert_eq!(one(&[0x81, 2, 0, 1, 0], 6).1, 5);
    assert_eq!(one(&[0x9E, 0, 0], 6).1, 3);
    let mut reader = Reader::new(&[0x07, 0x81, 2, 0, 1, 0, 0x06, 0x00], 6);
    let mut total = 0;
    while let Some((_, size)) = reader.read_action().unwrap() {
        total += size;
    }
    assert_eq!(total, 7);
}

#[test]
fn if_with_zero_offset_targets_next() {
    let actions = list(&[0x9D, 2, 0, 0, 0, 0x07, 0x00], 6).unwrap();
    assert_eq!(
        actions,
        vec![Action::If { offset: 0, jump_to: 1 }, Action::Simple(SimpleOp::Stop)]
    );
}

#[test]
fn jump_back_over_itself_is_self_loop() {
    let actions = list(&[0x07, 0x99, 2, 0, 0xFB, 0xFF, 0x00], 6).unwrap();
    assert_eq!(
        actions,
        vec![Action::Simple(SimpleOp::Stop), Action::Jump { offset: -5, jump_to: 1 }]
    );
}

#[test]
fn branch_past_end_targets_length() {
    let actions = list(&[0x99, 2, 0, 1, 0, 0x07], 6).unwrap();
    assert_eq!(actions[0], Action::Jump { offset: 1, jump_to: 2 });
}

#[test]
fn branch_between_boundaries_is_error() {
    assert_eq!(
        list(&[0x99, 2, 0, 2, 0, 0x81, 2, 0, 1, 0], 6),
        Err(DecodeError::UnresolvedBranchTarget)
    );
    assert_eq!(list(&[0x99, 2, 0, 0xF0, 0xFF], 6), Err(DecodeError::UnresolvedBranchTarget));
}

#[test]
fn unknown_opcode_keeps_payload() {
    let (action, size) = one(&[0xC5, 4, 0, 9, 8, 7, 6], 6);
    assert_eq!(action, Action::Unknown { opcode: 0xC5, data: vec![9, 8, 7, 6] });
    assert_eq!(size, 7);
    let (short, size) = one(&[0x01], 6);
    assert_eq!(short, Action::Unknown { opcode: 0x01, data: vec![] });
    assert_eq!(size, 1);
}

#[test]
fn constant_pool_and_pool_index() {
    let bytes = [0x88, 6, 0, 2, 0, b'a', 0, b'b', 0, 0x96, 2, 0, 8, 1, 0x00];
    let actions = list(&bytes, 6).unwrap();
    assert_eq!(
        actions,
        vec![
            Action::ConstantPool(vec!["a".to_string(), "b".to_string()]),
            Action::Push(vec![Value::ConstantPool(1)]),
        ]
    );
}

#[test]
fn push_values_of_every_tag() {
    let bytes = [
        0x96, 32, 0, 0, b'h', b'i', 0, 1, 0, 0, 0x80, 0x3F, 2, 3, 4, 5, 5, 1, 6, 0, 0, 0, 0, 0, 0,
        0xF0, 0x3F, 7, 0x2A, 0, 0, 0, 9, 0x34, 0x12,
    ];
    let (action, _) = one(&bytes, 6);
    assert_eq!(
        action,
        Action::Push(vec![
            Value::Str("hi".to_string()),
            Value::Float(0x3F80_0000),
            Value::Null,
            Value::Undefined,
            Value::Register(5),
            Value::Bool(true),
            Value::Double(0x3FF0_0000_0000_0000),
            Value::Int(42),
            Value::ConstantPool(0x1234),
        ])
    );
    assert_eq!(f32::from_bits(0x3F80_0000), 1.0);
}

#[test]
fn push_stops_at_cut_operand_and_rejects_bad_tag() {
    let (action, _) = one(&[0x96, 4, 0, 2, 7, 1, 2], 6);
    assert_eq!(action, Action::Push(vec![Value::Null]));
    let mut reader = Reader::new(&[0x96, 1, 0, 10], 6);
    assert_eq!(reader.read_action(), Err(DecodeError::InvalidPushValueType));
}

#[test]
fn define_function_2_preload_global_only() {
    let bytes = [
        0x8E, 12, 0, b'f', 0, 1, 0, 4, 0x00, 0x01, 2, b'x', 0, 1, 0, 0x07, 0x00,
    ];
    let actions = list(&bytes, 7).unwrap();
    assert_eq!(
        actions,
        vec![Action::DefineFunction2(Function {
            name: "f".to_string(),
            params: vec![FunctionParam { name: "x".to_string(), register_index: Some(2) }],
            num_registers: 4,
            preload_global: true,
            preload_parent: false,
            preload_root: false,
            suppress_super: false,
            preload_super: false,
            suppress_arguments: false,
            preload_arguments: false,
            suppress_this: false,
            preload_this: false,
            actions: vec![Action::Simple(SimpleOp::Stop)],
        })]
    );
}

#[test]
fn define_function_reads_body_after_payload() {
    let bytes = [0x9B, 8, 0, b'g', 0, 1, 0, b'a', 0, 2, 0, 0x06, 0x07, 0x06, 0x00];
    let actions = list(&bytes, 6).unwrap();
    assert_eq!(
        actions,
        vec![
            Action::DefineFunction {
                name: "g".to_string(),
                params: vec!["a".to_string()],
                actions: vec![Action::Simple(SimpleOp::Play), Action::Simple(SimpleOp::Stop)],
            },
            Action::Simple(SimpleOp::Play),
        ]
    );
}

#[test]
fn try_with_named_catch_and_finally() {
    let bytes = [
        0x8F, 12, 0, 0b111, 1, 0, 1, 0, 1, 0, b'e', 0, 0x07, 0x06, 0x04, 0x00,
    ];
    let actions = list(&bytes, 7).unwrap();
    assert_eq!(
        actions,
        vec![Action::Try(TryBlock {
            try_actions: vec![Action::Simple(SimpleOp::Stop)],
            catch: Some((
                CatchVar::Var("e".to_string()),
                vec![Action::Simple(SimpleOp::Play)],
            )),
            finally: Some(vec![Action::Simple(SimpleOp::NextFrame)]),
        })]
    );
}

#[test]
fn try_without_flags_drops_catch_and_finally() {
    let bytes = [0x8F, 11, 0, 0, 1, 0, 1, 0, 1, 0, 3, 0x07, 0x06, 0x04];
    let (action, _) = one(&bytes, 7);
    assert_eq!(
        action,
        Action::Try(TryBlock {
            try_actions: vec![Action::Simple(SimpleOp::Stop)],
            catch: None,
            finally: None,
        })
    );
}

#[test]
fn nested_body_is_cut_at_its_length() {
    let bytes = [0x94, 5, 0, 1, 0, 0x07, 0x06, 0x06, 0x04, 0x00];
    let actions = list(&bytes, 6).unwrap();
    assert_eq!(
        actions,
        vec![
            Action::With { actions: vec![Action::Simple(SimpleOp::Stop)] },
            Action::Simple(SimpleOp::NextFrame),
        ]
    );
}

#[test]
fn nested_branches_resolve_locally() {
    let bytes = [0x94, 8, 0, 6, 0, 0x99, 2, 0, 0, 0, 0x07, 0x99, 2, 0, 0xF0, 0xFF, 0x00];
    let actions = list(&bytes, 6).unwrap();
    assert_eq!(
        actions,
        vec![
            Action::With {
                actions: vec![
                    Action::Jump { offset: 0, jump_to: 1 },
                    Action::Simple(SimpleOp::Stop),
                ]
            },
            Action::Jump { offset: -16, jump_to: 0 },
        ]
    );
}

#[test]
fn terminator_alone_is_empty() {
    assert_eq!(list(&[0x00], 6), Ok(vec![]));
    assert_eq!(list(&[], 6), Ok(vec![]));
}

#[test]
fn list_stops_at_terminator() {
    let mut reader = Reader::new(&[0x07, 0x00, 0x06], 6);
    assert_eq!(reader.read_action_list(), Ok(vec![Action::Simple(SimpleOp::Stop)]));
    assert_eq!(reader.read_action_list(), Ok(vec![Action::Simple(SimpleOp::Play)]));
}

#[test]
fn truncated_payload_is_error() {
    assert_eq!(list(&[0x81, 4, 0, 1], 6), Err(DecodeError::UnexpectedEof));
    assert_eq!(list(&[0x81, 1, 0, 1], 6), Err(DecodeError::UnexpectedEof));
    assert_eq!(list(&[0x94, 2, 0, 9, 0], 6), Err(DecodeError::UnexpectedEof));
    assert_eq!(list(&[0x8B, 2, 0, b'a', b'b'], 6), Err(DecodeError::UnexpectedEof));
}

#[test]
fn cut_length_field_is_error() {
    assert_eq!(list(&[0x07, 0x81, 2], 6), Err(DecodeError::UnexpectedEof));
    let mut reader = Reader::new(&[0x96, 0x05], 10);
    assert_eq!(reader.read_action(), Err(DecodeError::UnexpectedEof));
}

#[test]
fn invalid_send_vars_method_is_error() {
    let mut reader = Reader::new(&[0x9A, 1, 0, 0b1100_0000], 6);
    assert_eq!(reader.read_action(), Err(DecodeError::InvalidSendVarsMethod));
}

#[test]
fn strings_follow_version() {
    let (utf8, _) = one(&[0x8C, 4, 0, 0xC3, 0xA9, b'!', 0], 6);
    assert_eq!(utf8, Action::GotoLabel("\u{e9}!".to_string()));
    let (sjis, _) = one(&[0x8C, 3, 0, 0x82, 0xA0, 0], 5);
    assert_eq!(sjis, Action::GotoLabel("\u{3042}".to_string()));
    let mut reader = Reader::new(&[0x8C, 3, 0, 0x82, 0xA0, 0], 6);
    assert_eq!(reader.read_action(), Err(DecodeError::InvalidString));
}

#[test]
fn opcode_and_length() {
    let mut reader = Reader::new(&[0x07, 0x96, 3, 1], 6);
    assert_eq!(reader.read_opcode_and_length(), Ok((0x07, 0)));
    assert_eq!(reader.read_opcode_and_length(), Ok((0x96, 259)));
    assert_eq!(reader.read_opcode_and_length(), Err(DecodeError::UnexpectedEof));
    assert_eq!(Reader::new(&[], 9).get_version(), 9);
}

#[test]
fn range_cut_at_boundary_decodes_prefix() {
    let whole = [0x99, 2, 0, 1, 0, 0x07, 0x06, 0x04, 0x00];
    let full = list(&whole, 6).unwrap();
    let mut reader = Reader::new(&whole[..7], 6);
    let cut = reader.read_action_list().unwrap();
    assert_eq!(cut.len(), 3);
    assert!(cut.iter().zip(full.iter()).all(|(a, b)| a == b));
    assert_eq!(full.len(), 4);
    assert_eq!(cut[0], Action::Jump { offset: 1, jump_to: 2 });
}
