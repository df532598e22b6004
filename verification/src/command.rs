//! The command model: one parsed VM instruction as a closed set of variants,
//! together with its mathematical view used by the contracts.

use vstd::prelude::*;

verus! {

/// The named memory regions of the VM, each with its own addressing rule.
#[derive(Clone, Copy, PartialEq, Eq, Structural, Debug)]
pub enum MemorySegment {
    Local,
    Argument,
    This,
    That,
    Temp,
    Pointer,
    Static,
    Constant,
}

/// The nine arithmetic-logical operators of the VM.
#[derive(Clone, Copy, PartialEq, Eq, Structural, Debug)]
pub enum ArithmeticOp {
    Add,
    Sub,
    Neg,
    Eq,
    Gt,
    Lt,
    And,
    Or,
    Not,
}

/// One VM instruction. `Label`, `Goto` and `If` carry the name of the
/// enclosing function, which namespaces the label; `NewFile` is the
/// synthetic marker inserted when translation crosses into the next
/// source module and carries that module's name.
#[derive(Debug)]
pub enum CommandType {
    Arithmetic(ArithmeticOp),
    Push(MemorySegment, u16),
    Pop(MemorySegment, u16),
    Label(String, String),
    Goto(String, String),
    If(String, String),
    Function(String, u8),
    Call(String, u8),
    Return,
    NewFile(String),
}

/// The mathematical view of a command: the same shape over character
/// sequences instead of heap strings.
pub enum CommandView {
    Arithmetic(ArithmeticOp),
    Push(MemorySegment, u16),
    Pop(MemorySegment, u16),
    Label(Seq<char>, Seq<char>),
    Goto(Seq<char>, Seq<char>),
    If(Seq<char>, Seq<char>),
    Function(Seq<char>, u8),
    Call(Seq<char>, u8),
    Return,
    NewFile(Seq<char>),
}

impl View for CommandType {
    type V = CommandView;

    open spec fn view(&self) -> CommandView {
        match self {
            CommandType::Arithmetic(op) => CommandView::Arithmetic(*op),
            CommandType::Push(seg, i) => CommandView::Push(*seg, *i),
            CommandType::Pop(seg, i) => CommandView::Pop(*seg, *i),
            CommandType::Label(scope, label) => CommandView::Label(scope@, label@),
            CommandType::Goto(scope, label) => CommandView::Goto(scope@, label@),
            CommandType::If(scope, label) => CommandView::If(scope@, label@),
            CommandType::Function(name, nvars) => CommandView::Function(name@, *nvars),
            CommandType::Call(name, nargs) => CommandView::Call(name@, *nargs),
            CommandType::Return => CommandView::Return,
            CommandType::NewFile(name) => CommandView::NewFile(name@),
        }
    }
}

impl DeepView for CommandType {
    type V = CommandView;

    open spec fn deep_view(&self) -> CommandView {
        self.view()
    }
}

} // verus!
