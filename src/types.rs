use vstd::prelude::*;
use crate::opcode::SimpleOp;

verus! {

broadcast use vstd::std_specs::vec::axiom_vec_index_decreases;

/// Why a decode failed.
#[derive(Clone, Copy, Debug, PartialEq, Eq, Structural)]
pub enum DecodeError {
    /// A field or a bounded range needs more bytes than remain.
    UnexpectedEof,
    /// The method selector of a `GetUrl2` is not one of the three known ones.
    InvalidSendVarsMethod,
    /// A push operand has an unknown type tag.
    InvalidPushValueType,
    /// A string's bytes are not valid in the encoding that the version selects.
    InvalidString,
    /// A branch offset lands between two instruction boundaries.
    UnresolvedBranchTarget,
}

/// How a `GetUrl2` sends variables.
#[derive(Clone, Copy, Debug, PartialEq, Eq, Structural)]
pub enum SendVarsMethod {
    DontSend,
    Get,
    Post,
}

/// A push operand. Floating-point operands keep their IEEE-754 bit patterns.
#[derive(Clone, Debug, PartialEq, Eq)]
pub enum Value {
    Str(String),
    Float(u32),
    Null,
    Undefined,
    Register(u8),
    Bool(bool),
    Double(u64),
    Int(u32),
    ConstantPool(u16),
}

#[derive(Clone, Debug, PartialEq, Eq)]
pub struct FunctionParam {
    pub name: String,
    pub register_index: Option<u8>,
}

#[derive(Debug, PartialEq, Eq)]
pub struct Function {
    pub name: String,
    pub params: Vec<FunctionParam>,
    pub num_registers: u8,
    pub preload_global: bool,
    pub preload_parent: bool,
    pub preload_root: bool,
    pub suppress_super: bool,
    pub preload_super: bool,
    pub suppress_arguments: bool,
    pub preload_arguments: bool,
    pub suppress_this: bool,
    pub preload_this: bool,
    pub actions: Vec<Action>,
}

#[derive(Clone, Debug, PartialEq, Eq)]
pub enum CatchVar {
    Var(String),
    Register(u8),
}

#[derive(Debug, PartialEq, Eq)]
pub struct TryBlock {
    pub try_actions: Vec<Action>,
    pub catch: Option<(CatchVar, Vec<Action>)>,
    pub finally: Option<Vec<Action>>,
}

/// One decoded instruction. Branches keep their raw byte offset beside the
/// index of the instruction they land on.
#[derive(Debug, PartialEq, Eq)]
pub enum Action {
    Simple(SimpleOp),
    ConstantPool(Vec<String>),
    DefineFunction { name: String, params: Vec<String>, actions: Vec<Action> },
    DefineFunction2(Function),
    GetUrl { url: String, target: String },
    GetUrl2 { send_vars_method: SendVarsMethod, is_target_sprite: bool, is_load_vars: bool },
    GotoFrame(u16),
    GotoFrame2 { set_playing: bool, scene_offset: u16 },
    GotoLabel(String),
    If { offset: i16, jump_to: usize },
    Jump { offset: i16, jump_to: usize },
    Push(Vec<Value>),
    SetTarget(String),
    StoreRegister(u8),
    Try(TryBlock),
    WaitForFrame { frame: u16, num_actions_to_skip: u8 },
    WaitForFrame2 { num_actions_to_skip: u8 },
    With { actions: Vec<Action> },
    Unknown { opcode: u8, data: Vec<u8> },
}

pub type ActionList = Vec<Action>;

/// Mathematical form of a [`Value`].
pub enum ValueM {
    Str(Seq<char>),
    Float(u32),
    Null,
    Undefined,
    Register(u8),
    Bool(bool),
    Double(u64),
    Int(u32),
    ConstantPool(u16),
}

pub struct ParamM {
    pub name: Seq<char>,
    pub register_index: Option<u8>,
}

pub struct FunctionM {
    pub name: Seq<char>,
    pub params: Seq<ParamM>,
    pub num_registers: u8,
    pub preload_global: bool,
    pub preload_parent: bool,
    pub preload_root: bool,
    pub suppress_super: bool,
    pub preload_super: bool,
    pub suppress_arguments: bool,
    pub preload_arguments: bool,
    pub suppress_this: bool,
    pub preload_this: bool,
    pub actions: Seq<ActionM>,
}

pub enum CatchVarM {
    Var(Seq<char>),
    Register(u8),
}

pub struct TryBlockM {
    pub try_actions: Seq<ActionM>,
    pub catch: Option<(CatchVarM, Seq<ActionM>)>,
    pub finally: Option<Seq<ActionM>>,
}

/// Mathematical form of an [`Action`]: strings as character sequences,
/// nested lists as sequences of models.
pub enum ActionM {
    Simple(SimpleOp),
    ConstantPool(Seq<Seq<char>>),
    DefineFunction { name: Seq<char>, params: Seq<Seq<char>>, actions: Seq<ActionM> },
    DefineFunction2(FunctionM),
    GetUrl { url: Seq<char>, target: Seq<char> },
    GetUrl2 { send_vars_method: SendVarsMethod, is_target_sprite: bool, is_load_vars: bool },
    GotoFrame(u16),
    GotoFrame2 { set_playing: bool, scene_offset: u16 },
    GotoLabel(Seq<char>),
    If { offset: i16, jump_to: int },
    Jump { offset: i16, jump_to: int },
    Push(Seq<ValueM>),
    SetTarget(Seq<char>),
    StoreRegister(u8),
    Try(TryBlockM),
    WaitForFrame { frame: u16, num_actions_to_skip: u8 },
    WaitForFrame2 { num_actions_to_skip: u8 },
    With { actions: Seq<ActionM> },
    Unknown { opcode: u8, data: Seq<u8> },
}

impl View for Value {
    type V = ValueM;

    open spec fn view(&self) -> ValueM {
        match self {
            Value::Str(s) => ValueM::Str(s@),
            Value::Float(x) => ValueM::Float(*x),
            Value::Null => ValueM::Null,
            Value::Undefined => ValueM::Undefined,
            Value::Register(x) => ValueM::Register(*x),
            Value::Bool(x) => ValueM::Bool(*x),
            Value::Double(x) => ValueM::Double(*x),
            Value::Int(x) => ValueM::Int(*x),
            Value::ConstantPool(x) => ValueM::ConstantPool(*x),
        }
    }
}

impl View for FunctionParam {
    type V = ParamM;

    open spec fn view(&self) -> ParamM {
        ParamM { name: self.name@, register_index: self.register_index }
    }
}

impl View for CatchVar {
    type V = CatchVarM;

    open spec fn view(&self) -> CatchVarM {
        match self {
            CatchVar::Var(s) => CatchVarM::Var(s@),
            CatchVar::Register(r) => CatchVarM::Register(*r),
        }
    }
}

/// The strings of a vector as character sequences.
pub open spec fn strings_model(v: Seq<String>) -> Seq<Seq<char>> {
    Seq::new(v.len(), |i: int| v[i]@)
}

/// The elements of a vector through their views.
pub open spec fn values_model(v: Seq<Value>) -> Seq<ValueM> {
    Seq::new(v.len(), |i: int| v[i]@)
}

pub open spec fn params_model(v: Seq<FunctionParam>) -> Seq<ParamM> {
    Seq::new(v.len(), |i: int| v[i]@)
}

/// The actions of a vector through their views.
pub open spec fn actions_model(v: Seq<Action>) -> Seq<ActionM> {
    Seq::new(v.len(), |i: int| v[i]@)
}

impl View for Action {
    type V = ActionM;

    open spec fn view(&self) -> ActionM {
        self.model()
    }
}

impl Action {
    /// The instruction's mathematical form.
    pub open spec fn model(&self) -> ActionM
        decreases self,
    {
        match self {
            Action::Simple(op) => ActionM::Simple(*op),
            Action::ConstantPool(v) => ActionM::ConstantPool(strings_model(v@)),
            Action::DefineFunction { name, params, actions } => ActionM::DefineFunction {
                name: name@,
                params: strings_model(params@),
                actions: Seq::new(
                    actions.len() as nat,
                    |i: int|
                        if 0 <= i < actions.len() {
                            actions[i].model()
                        } else {
                            ActionM::Simple(SimpleOp::Add)
                        },
                ),
            },
            Action::DefineFunction2(f) => ActionM::DefineFunction2(
                FunctionM {
                    name: f.name@,
                    params: params_model(f.params@),
                    num_registers: f.num_registers,
                    preload_global: f.preload_global,
                    preload_parent: f.preload_parent,
                    preload_root: f.preload_root,
                    suppress_super: f.suppress_super,
                    preload_super: f.preload_super,
                    suppress_arguments: f.suppress_arguments,
                    preload_arguments: f.preload_arguments,
                    suppress_this: f.suppress_this,
                    preload_this: f.preload_this,
                    actions: Seq::new(
                        f.actions.len() as nat,
                        |i: int|
                            if 0 <= i < f.actions.len() {
                                f.actions[i].model()
                            } else {
                                ActionM::Simple(SimpleOp::Add)
                            },
                    ),
                },
            ),
            Action::GetUrl { url, target } => ActionM::GetUrl { url: url@, target: target@ },
            Action::GetUrl2 { send_vars_method, is_target_sprite, is_load_vars } =>
                ActionM::GetUrl2 {
                send_vars_method: *send_vars_method,
                is_target_sprite: *is_target_sprite,
                is_load_vars: *is_load_vars,
            },
            Action::GotoFrame(n) => ActionM::GotoFrame(*n),
            Action::GotoFrame2 { set_playing, scene_offset } => ActionM::GotoFrame2 {
                set_playing: *set_playing,
                scene_offset: *scene_offset,
            },
            Action::GotoLabel(s) => ActionM::GotoLabel(s@),
            Action::If { offset, jump_to } => ActionM::If {
                offset: *offset,
                jump_to: *jump_to as int,
            },
            Action::Jump { offset, jump_to } => ActionM::Jump {
                offset: *offset,
                jump_to: *jump_to as int,
            },
            Action::Push(v) => ActionM::Push(values_model(v@)),
            Action::SetTarget(s) => ActionM::SetTarget(s@),
            Action::StoreRegister(r) => ActionM::StoreRegister(*r),
            Action::Try(t) => ActionM::Try(
                TryBlockM {
                    try_actions: Seq::new(
                        t.try_actions.len() as nat,
                        |i: int|
                            if 0 <= i < t.try_actions.len() {
                                t.try_actions[i].model()
                            } else {
                                ActionM::Simple(SimpleOp::Add)
                            },
                    ),
                    catch: match &t.catch {
                        Some((var, body)) => Some(
                            (
                                var@,
                                Seq::new(
                                    body.len() as nat,
                                    |i: int|
                                        if 0 <= i < body.len() {
                                            body[i].model()
                                        } else {
                                            ActionM::Simple(SimpleOp::Add)
                                        },
                                ),
                            ),
                        ),
                        None => None,
                    },
                    finally: match &t.finally {
                        Some(body) => Some(
                            Seq::new(
                                body.len() as nat,
                                |i: int|
                                    if 0 <= i < body.len() {
                                        body[i].model()
                                    } else {
                                        ActionM::Simple(SimpleOp::Add)
                                    },
                            ),
                        ),
                        None => None,
                    },
                },
            ),
            Action::WaitForFrame { frame, num_actions_to_skip } => ActionM::WaitForFrame {
                frame: *frame,
                num_actions_to_skip: *num_actions_to_skip,
            },
            Action::WaitForFrame2 { num_actions_to_skip } => ActionM::WaitForFrame2 {
                num_actions_to_skip: *num_actions_to_skip,
            },
            Action::With { actions } => ActionM::With {
                actions: Seq::new(
                    actions.len() as nat,
                    |i: int|
                        if 0 <= i < actions.len() {
                            actions[i].model()
                        } else {
                            ActionM::Simple(SimpleOp::Add)
                        },
                ),
            },
            Action::Unknown { opcode, data } => ActionM::Unknown { opcode: *opcode, data: data@ },
        }
    }
}

} // verus!
