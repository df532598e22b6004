//! The code generator: a pure mapping from one VM command, the ambient
//! module name, and the label counter, to the assembly-text fragment that
//! implements the command's semantics. Every fragment keeps the stack
//! discipline: a push stores and then increments the stack pointer, a pop
//! decrements it and then loads, so fragments concatenate directly.

use vstd::prelude::*;
use crate::command::{ArithmeticOp, CommandType, CommandView, MemorySegment};
use crate::errors::{HVMError, HVMErrorView};
use crate::labels::{count_label, count_label_text, return_label, return_label_text, scoped_label, scoped_label_text, static_symbol, static_symbol_text, LabelGenerator};
use crate::text::{dec_str, u16_to_string};

verus! {

/// `s` repeated `n` times.
pub open spec fn repeat_seq(s: Seq<char>, n: nat) -> Seq<char>
    decreases n,
{
    if n == 0 {
        Seq::empty()
    } else {
        repeat_seq(s, (n - 1) as nat) + s
    }
}

/// The fragment that pops into D: decrement the stack pointer, then load.
pub open spec fn pop_y_asm() -> Seq<char> {
    "\n@SP\nM=M-1\nA=M\nD=M"@
}

/// The fragment that pushes D: store at the stack pointer, then increment.
pub open spec fn push_x_asm() -> Seq<char> {
    "\n@SP\nA=M\nM=D\n@SP\nM=M+1"@
}

/// The comparison fragment for one call site: pops y then compares with x,
/// pushes all-ones when the comparison holds and 0 otherwise, branching
/// through the two labels minted at counter values `c` and `c + 1`.
pub open spec fn cmp_asm(name: Seq<char>, jump: Seq<char>, c: nat) -> Seq<char> {
    "// "@ + name + "\n@SP\nAM=M-1\nD=M\nA=A-1\nD=M-D\n@"@ + count_label(c) + "\nD;"@ + jump
        + "\nD=0\n@"@ + count_label(c + 1) + "\n0;JMP\n("@ + count_label(c) + ")\nD=-1\n("@
        + count_label(c + 1) + ")\n@SP\nA=M-1\nM=D\n\n"@
}

/// The assembly fragment of one arithmetic-logical command, with the stack
/// top as y and the cell below as x.
pub open spec fn arith_asm(op: ArithmeticOp, c: nat) -> Seq<char> {
    match op {
        ArithmeticOp::Add => "// add\n@SP\nA=M-1\nD=M\n@SP\nM=M-1\n@SP\nA=M-1\nD=D+M\nM=D\n\n"@,
        ArithmeticOp::Sub => "// sub\n@SP\nA=M\nA=A-1\nA=A-1\nD=M\nA=A+1\nD=D-M\n@SP\nM=M-1\nM=M-1\nA=M\nM=D\n@SP\nM=M+1\n\n"@,
        ArithmeticOp::Neg => "// neg\n@SP\nA=M-1\nM=-M\n\n"@,
        ArithmeticOp::And => "// and\n@SP\nA=M-1\nD=M\n@SP\nM=M-1\nA=M-1\nD=D&M\nM=D\n\n"@,
        ArithmeticOp::Or => "// or\n@SP\nA=M-1\nD=M\nM=0\n@SP\nM=M-1\nA=M-1\nM=D|M\n\n"@,
        ArithmeticOp::Not => "// not\n@SP\nA=M-1\nM=!M\n\n"@,
        ArithmeticOp::Eq => cmp_asm("eq"@, "JEQ"@, c),
        ArithmeticOp::Gt => cmp_asm("gt"@, "JGT"@, c),
        ArithmeticOp::Lt => cmp_asm("lt"@, "JLT"@, c),
    }
}

/// How many counter values the fragment of `op` consumes.
pub open spec fn arith_fresh(op: ArithmeticOp) -> nat {
    match op {
        ArithmeticOp::Eq | ArithmeticOp::Gt | ArithmeticOp::Lt => 2,
        _ => 0,
    }
}

/// Whether `op` is one of the comparison operators.
pub open spec fn is_comparison(op: ArithmeticOp) -> bool {
    op == ArithmeticOp::Eq || op == ArithmeticOp::Gt || op == ArithmeticOp::Lt
}

fn write_comparison(name: &str, jump: &str, gen: &mut LabelGenerator) -> (r: String)
    requires
        old(gen).next <= u128::MAX - 2,
    ensures
        r@ == cmp_asm(name@, jump@, old(gen).next as nat),
        final(gen).next == old(gen).next + 2,
{
    let c1 = gen.fresh();
    let c2 = gen.fresh();
    let l1 = count_label_text(c1);
    let l2 = count_label_text(c2);
    let mut s = String::from_str("// ");
    s.append(name);
    s.append("\n@SP\nAM=M-1\nD=M\nA=A-1\nD=M-D\n@");
    s.append(l1.as_str());
    s.append("\nD;");
    s.append(jump);
    s.append("\nD=0\n@");
    s.append(l2.as_str());
    s.append("\n0;JMP\n(");
    s.append(l1.as_str());
    s.append(")\nD=-1\n(");
    s.append(l2.as_str());
    s.append(")\n@SP\nA=M-1\nM=D\n\n");
    assert(s@ =~= cmp_asm(name@, jump@, c1 as nat));
    s
}

/// Writes the assembly fragment of the given arithmetic-logical command.
/// Comparison operators draw two fresh labels from the generator; every
/// other operator leaves the generator untouched.
pub fn write_arithmetic(command: ArithmeticOp, gen: &mut LabelGenerator) -> (r: String)
    requires
        old(gen).next <= u128::MAX - 2,
    ensures
        r@ == arith_asm(command, old(gen).next as nat),
        final(gen).next == old(gen).next + arith_fresh(command),
{
    match command {
        ArithmeticOp::Add => String::from_str(
            "// add\n@SP\nA=M-1\nD=M\n@SP\nM=M-1\n@SP\nA=M-1\nD=D+M\nM=D\n\n",
        ),
        ArithmeticOp::Sub => String::from_str(
            "// sub\n@SP\nA=M\nA=A-1\nA=A-1\nD=M\nA=A+1\nD=D-M\n@SP\nM=M-1\nM=M-1\nA=M\nM=D\n@SP\nM=M+1\n\n",
        ),
        ArithmeticOp::Neg => String::from_str("// neg\n@SP\nA=M-1\nM=-M\n\n"),
        ArithmeticOp::And => String::from_str(
            "// and\n@SP\nA=M-1\nD=M\n@SP\nM=M-1\nA=M-1\nD=D&M\nM=D\n\n",
        ),
        ArithmeticOp::Or => String::from_str(
            "// or\n@SP\nA=M-1\nD=M\nM=0\n@SP\nM=M-1\nA=M-1\nM=D|M\n\n",
        ),
        ArithmeticOp::Not => String::from_str("// not\n@SP\nA=M-1\nM=!M\n\n"),
        ArithmeticOp::Eq => write_comparison("eq", "JEQ", gen),
        ArithmeticOp::Gt => write_comparison("gt", "JGT", gen),
        ArithmeticOp::Lt => write_comparison("lt", "JLT", gen),
    }
}

/// The name of a segment as it appears in VM source and in comments.
pub open spec fn seg_name(seg: MemorySegment) -> Seq<char> {
    match seg {
        MemorySegment::Local => "local"@,
        MemorySegment::Argument => "argument"@,
        MemorySegment::This => "this"@,
        MemorySegment::That => "that"@,
        MemorySegment::Temp => "temp"@,
        MemorySegment::Pointer => "pointer"@,
        MemorySegment::Static => "static"@,
        MemorySegment::Constant => "constant"@,
    }
}

fn seg_name_str(seg: MemorySegment) -> (r: &'static str)
    ensures
        r@ == seg_name(seg),
{
    match seg {
        MemorySegment::Local => "local",
        MemorySegment::Argument => "argument",
        MemorySegment::This => "this",
        MemorySegment::That => "that",
        MemorySegment::Temp => "temp",
        MemorySegment::Pointer => "pointer",
        MemorySegment::Static => "static",
        MemorySegment::Constant => "constant",
    }
}

/// The assembly symbol of the base-pointer register of a segment.
pub open spec fn base_symbol(seg: MemorySegment) -> Seq<char> {
    match seg {
        MemorySegment::Local => "LCL"@,
        MemorySegment::Argument => "ARG"@,
        MemorySegment::This => "THIS"@,
        MemorySegment::That => "THAT"@,
        _ => Seq::empty(),
    }
}

fn base_symbol_str(seg: MemorySegment) -> (r: &'static str)
    requires
        seg == MemorySegment::Local || seg == MemorySegment::Argument || seg
            == MemorySegment::This || seg == MemorySegment::That,
    ensures
        r@ == base_symbol(seg),
{
    match seg {
        MemorySegment::Local => "LCL",
        MemorySegment::Argument => "ARG",
        MemorySegment::This => "THIS",
        _ => "THAT",
    }
}

/// The addressing steps that walk A from the base register to base + index.
pub open spec fn incr_asm(i: nat) -> Seq<char> {
    if i == 0 {
        "A=M\n"@
    } else {
        "A=M+1\n"@ + repeat_seq("A=A+1\n"@, (i - 1) as nat)
    }
}

/// Writes the addressing steps that walk A from a base register to
/// base + index.
pub fn incremente_m(index: u16) -> (r: String)
    ensures
        r@ == incr_asm(index as nat),
{
    if index == 0 {
        String::from_str("A=M\n")
    } else {
        let mut s = String::from_str("A=M+1\n");
        let mut k: u16 = 1;
        while k < index
            invariant
                1 <= k <= index,
                s@ == "A=M+1\n"@ + repeat_seq("A=A+1\n"@, (k - 1) as nat),
            decreases index - k,
        {
            s.append("A=A+1\n");
            k += 1;
        }
        s
    }
}

/// Whether the command's index operand lies in the valid range of its
/// segment: at most 7 for `temp`, at most 1 for `pointer`, and `constant`
/// is push-only.
pub open spec fn push_pop_valid(cmd: CommandView) -> bool {
    match cmd {
        CommandView::Push(seg, i) => (seg == MemorySegment::Temp ==> i <= 7) && (seg
            == MemorySegment::Pointer ==> i <= 1),
        CommandView::Pop(seg, i) => seg != MemorySegment::Constant && (seg == MemorySegment::Temp
            ==> i <= 7) && (seg == MemorySegment::Pointer ==> i <= 1),
        _ => false,
    }
}

/// The error reported for an invalid push or pop command.
pub open spec fn push_pop_err(cmd: CommandView) -> HVMErrorView {
    match cmd {
        CommandView::Push(seg, i) => HVMErrorView::SegmentRange { segment: seg, index: i },
        CommandView::Pop(seg, i) => HVMErrorView::SegmentRange { segment: seg, index: i },
        _ => HVMErrorView::SegmentRange { segment: MemorySegment::Constant, index: 0 },
    }
}

/// The fragment of `push seg i` in module `module`.
pub open spec fn push_asm(seg: MemorySegment, i: u16, module: Seq<char>) -> Seq<char> {
    match seg {
        MemorySegment::Constant => "// push constant "@ + dec_str(i as nat) + "\n@"@ + dec_str(
            i as nat,
        ) + "\nD=A"@ + push_x_asm() + "\n\n"@,
        MemorySegment::Temp => "// push temp "@ + dec_str(i as nat) + "\n@"@ + dec_str(i as nat)
            + "\nD=A\n@"@ + dec_str((i + 5) as nat) + "\nD=M"@ + push_x_asm() + "\n\n"@,
        MemorySegment::Pointer => "// push pointer "@ + dec_str(i as nat) + "\n@"@ + (if i == 0 {
            "THIS"@
        } else {
            "THAT"@
        }) + "\nD=M"@ + push_x_asm() + "\n\n"@,
        MemorySegment::Static => "// push static "@ + dec_str(i as nat) + "\n@"@ + static_symbol(
            module,
            i as nat,
        ) + "\nD=M"@ + push_x_asm() + "\n\n"@,
        _ => "// push "@ + seg_name(seg) + " "@ + dec_str(i as nat) + "\n@"@ + dec_str(i as nat)
            + "\nD=A\n@"@ + base_symbol(seg) + "\nA=D+M\nD=M"@ + push_x_asm() + "\n\n"@,
    }
}

/// The fragment of `pop seg i` in module `module`.
pub open spec fn pop_asm(seg: MemorySegment, i: u16, module: Seq<char>) -> Seq<char> {
    match seg {
        MemorySegment::Temp => "// pop temp "@ + dec_str(i as nat) + pop_y_asm() + "\n@"@
            + dec_str((i + 5) as nat) + "\nM=D\n\n"@,
        MemorySegment::Pointer => "// pop pointer "@ + dec_str(i as nat) + pop_y_asm() + "\n@"@ + (
        if i == 0 {
            "THIS"@
        } else {
            "THAT"@
        }) + "\nM=D\n\n"@,
        MemorySegment::Static => "// pop static "@ + dec_str(i as nat) + pop_y_asm() + "\n@"@
            + static_symbol(module, i as nat) + "\nM=D\n\n"@,
        _ => "// pop "@ + seg_name(seg) + " "@ + dec_str(i as nat) + pop_y_asm() + "\n@"@
            + base_symbol(seg) + "\n"@ + incr_asm(i as nat) + "M=D\n\n"@,
    }
}

/// The fragment of a valid push or pop command in module `module`.
pub open spec fn push_pop_asm(cmd: CommandView, module: Seq<char>) -> Seq<char> {
    match cmd {
        CommandView::Push(seg, i) => push_asm(seg, i, module),
        CommandView::Pop(seg, i) => pop_asm(seg, i, module),
        _ => Seq::empty(),
    }
}

fn write_push(segment: MemorySegment, index: u16, filename: &str) -> (r: Result<String, HVMError>)
    ensures
        match r {
            Ok(s) => push_pop_valid(CommandView::Push(segment, index)) && s@ == push_asm(
                segment,
                index,
                filename@,
            ),
            Err(e) => !push_pop_valid(CommandView::Push(segment, index)) && e@ == push_pop_err(
                CommandView::Push(segment, index),
            ),
        },
{
    let idx = u16_to_string(index);
    match segment {
        MemorySegment::Constant => {
            let mut s = String::from_str("// push constant ");
            s.append(idx.as_str());
            s.append("\n@");
            s.append(idx.as_str());
            s.append("\nD=A");
            s.append("\n@SP\nA=M\nM=D\n@SP\nM=M+1");
            s.append("\n\n");
            assert(s@ =~= push_asm(segment, index, filename@));
            Ok(s)
        },
        MemorySegment::Temp => {
            if index > 7 {
                return Err(HVMError::SegmentRange { segment, index });
            }
            let mut s = String::from_str("// push temp ");
            s.append(idx.as_str());
            s.append("\n@");
            s.append(idx.as_str());
            s.append("\nD=A\n@");
            s.append(u16_to_string(index + 5).as_str());
            s.append("\nD=M");
            s.append("\n@SP\nA=M\nM=D\n@SP\nM=M+1");
            s.append("\n\n");
            assert(s@ =~= push_asm(segment, index, filename@));
            Ok(s)
        },
        MemorySegment::Pointer => {
            if index > 1 {
                return Err(HVMError::SegmentRange { segment, index });
            }
            let mut s = String::from_str("// push pointer ");
            s.append(idx.as_str());
            s.append("\n@");
            s.append(if index == 0 { "THIS" } else { "THAT" });
            s.append("\nD=M");
            s.append("\n@SP\nA=M\nM=D\n@SP\nM=M+1");
            s.append("\n\n");
            assert(s@ =~= push_asm(segment, index, filename@));
            Ok(s)
        },
        MemorySegment::Static => {
            let sym = static_symbol_text(filename, index);
            let mut s = String::from_str("// push static ");
            s.append(idx.as_str());
            s.append("\n@");
            s.append(sym.as_str());
            s.append("\nD=M");
            s.append("\n@SP\nA=M\nM=D\n@SP\nM=M+1");
            s.append("\n\n");
            assert(s@ =~= push_asm(segment, index, filename@));
            Ok(s)
        },
        _ => {
            let mut s = String::from_str("// push ");
            s.append(seg_name_str(segment));
            s.append(" ");
            s.append(idx.as_str());
            s.append("\n@");
            s.append(idx.as_str());
            s.append("\nD=A\n@");
            s.append(base_symbol_str(segment));
            s.append("\nA=D+M\nD=M");
            s.append("\n@SP\nA=M\nM=D\n@SP\nM=M+1");
            s.append("\n\n");
            assert(s@ =~= push_asm(segment, index, filename@));
            Ok(s)
        },
    }
}

fn write_pop(segment: MemorySegment, index: u16, filename: &str) -> (r: Result<String, HVMError>)
    ensures
        match r {
            Ok(s) => push_pop_valid(CommandView::Pop(segment, index)) && s@ == pop_asm(
                segment,
                index,
                filename@,
            ),
            Err(e) => !push_pop_valid(CommandView::Pop(segment, index)) && e@ == push_pop_err(
                CommandView::Pop(segment, index),
            ),
        },
{
    let idx = u16_to_string(index);
    match segment {
        MemorySegment::Constant => Err(HVMError::SegmentRange { segment, index }),
        MemorySegment::Temp => {
            if index > 7 {
                return Err(HVMError::SegmentRange { segment, index });
            }
            let mut s = String::from_str("// pop temp ");
            s.append(idx.as_str());
            s.append("\n@SP\nM=M-1\nA=M\nD=M");
            s.append("\n@");
            s.append(u16_to_string(index + 5).as_str());
            s.append("\nM=D\n\n");
            assert(s@ =~= pop_asm(segment, index, filename@));
            Ok(s)
        },
        MemorySegment::Pointer => {
            if index > 1 {
                return Err(HVMError::SegmentRange { segment, index });
            }
            let mut s = String::from_str("// pop pointer ");
            s.append(idx.as_str());
            s.append("\n@SP\nM=M-1\nA=M\nD=M");
            s.append("\n@");
            s.append(if index == 0 { "THIS" } else { "THAT" });
            s.append("\nM=D\n\n");
            assert(s@ =~= pop_asm(segment, index, filename@));
            Ok(s)
        },
        MemorySegment::Static => {
            let sym = static_symbol_text(filename, index);
            let mut s = String::from_str("// pop static ");
            s.append(idx.as_str());
            s.append("\n@SP\nM=M-1\nA=M\nD=M");
            s.append("\n@");
            s.append(sym.as_str());
            s.append("\nM=D\n\n");
            assert(s@ =~= pop_asm(segment, index, filename@));
            Ok(s)
        },
        _ => {
            let incr = incremente_m(index);
            let mut s = String::from_str("// pop ");
            s.append(seg_name_str(segment));
            s.append(" ");
            s.append(idx.as_str());
            s.append("\n@SP\nM=M-1\nA=M\nD=M");
            s.append("\n@");
            s.append(base_symbol_str(segment));
            s.append("\n");
            s.append(incr.as_str());
            s.append("M=D\n\n");
            assert(s@ =~= pop_asm(segment, index, filename@));
            Ok(s)
        },
    }
}

/// Writes the assembly fragment of the given push or pop command; the
/// module name namespaces the static segment. Rejects an index outside the
/// valid range of its segment, and any pop of the push-only constant
/// segment, with a `SegmentRange` error.
pub fn write_push_pop(command: &CommandType, filename: &str) -> (r: Result<String, HVMError>)
    requires
        command@ is Push || command@ is Pop,
    ensures
        match r {
            Ok(s) => push_pop_valid(command@) && s@ == push_pop_asm(command@, filename@),
            Err(e) => !push_pop_valid(command@) && e@ == push_pop_err(command@),
        },
{
    match command {
        CommandType::Push(segment, index) => write_push(*segment, *index, filename),
        CommandType::Pop(segment, index) => write_pop(*segment, *index, filename),
        _ => {
            proof {
                assert(false);
            }
            Err(HVMError::SegmentRange { segment: MemorySegment::Constant, index: 0 })
        },
    }
}

/// The fragment of a label command: the scoped label definition.
pub open spec fn label_asm(scope: Seq<char>, label: Seq<char>) -> Seq<char> {
    "("@ + scoped_label(scope, label) + ")\n"@
}

/// The fragment of a goto command: an unconditional jump to the scoped label.
pub open spec fn goto_asm(scope: Seq<char>, label: Seq<char>) -> Seq<char> {
    "@"@ + scoped_label(scope, label) + "\n0;JMP\n\n"@
}

/// The fragment of an if-goto command: pop one value and jump to the scoped
/// label when it is non-zero.
pub open spec fn if_asm(scope: Seq<char>, label: Seq<char>) -> Seq<char> {
    "// if-goto"@ + pop_y_asm() + "\n@"@ + scoped_label(scope, label) + "\nD;JNE\n\n"@
}

/// The fragment that pushes one zero-initialized local slot.
pub open spec fn init_local_asm() -> Seq<char> {
    "@SP\nA=M\nM=0\n@SP\nM=M+1\n"@
}

/// The fragment of a function command: the entry label, then exactly
/// `nvars` zero-initialized local slots pushed one by one.
pub open spec fn function_asm(name: Seq<char>, nvars: u8) -> Seq<char> {
    "("@ + name + ")\n"@ + repeat_seq(init_local_asm(), nvars as nat) + "\n"@
}

/// The fragment of a call command at counter value `c`: push the fresh
/// return-address label value, save the caller's LCL, ARG, THIS and THAT
/// in that order, reposition ARG to stack pointer - nargs - 5, set LCL to
/// the stack pointer, jump to the callee, and define the return label as
/// the resumption point.
pub open spec fn call_asm(name: Seq<char>, nargs: u8, c: nat) -> Seq<char> {
    "// call "@ + name + "\n@"@ + return_label(name, c)
        + "\nD=A\n@SP\nA=M\nM=D\n@SP\nM=M+1\n"@ + "@LCL\nD=M\n@SP\nA=M\nM=D\n@SP\nM=M+1\n"@
        + "@ARG\nD=M\n@SP\nA=M\nM=D\n@SP\nM=M+1\n"@ + "@THIS\nD=M\n@SP\nA=M\nM=D\n@SP\nM=M+1\n"@
        + "@THAT\nD=M\n@SP\nA=M\nM=D\n@SP\nM=M+1\n"@ + "@SP\nD=M\n@"@ + dec_str((nargs + 5) as nat)
        + "\nD=D-A\n@ARG\nM=D\n"@ + "@SP\nD=M\n@LCL\nM=D\n"@ + "@"@ + name + "\n0;JMP\n"@ + "("@
        + return_label(name, c) + ")\n\n\n"@
}

/// The fragment of a return command: capture LCL as the frame base, save
/// the return address from frame - 5 before anything is overwritten, copy
/// the result into ARG[0], collapse the stack to ARG + 1, restore THAT,
/// THIS, ARG and LCL in that order, and jump to the saved return address.
pub open spec fn return_asm() -> Seq<char> {
    "// return\n@LCL\nD=M\n@R13\nM=D\n@5\nA=D-A\nD=M\n@R14\nM=D\n@SP\nA=M-1\nD=M\n@ARG\nA=M\nM=D\n@ARG\nD=M+1\n@SP\nM=D\n@R13\nD=M-1\nA=D\nD=M\n@THAT\nM=D\n@R13\nD=M\n@2\nA=D-A\nD=M\n@THIS\nM=D\n@R13\nD=M\n@3\nA=D-A\nD=M\n@ARG\nM=D\n@R13\nD=M\n@4\nA=D-A\nD=M\n@LCL\nM=D\n@R14\nA=M\n0;JMP\n"@
}

/// The bootstrap prologue at counter value `c`: set the stack pointer to
/// 256 and call the entry function `Sys.init`.
pub open spec fn bootstrap_asm(c: nat) -> Seq<char> {
    "// Bootstrap Code\n@256\nD=A\n@SP\nM=D\n"@ + call_asm("Sys.init"@, 0, c)
}

/// Writes the scoped label definition of a label command.
pub fn write_label(scope: &str, label: &str) -> (r: String)
    ensures
        r@ == label_asm(scope@, label@),
{
    let scoped = scoped_label_text(scope, label);
    let mut s = String::from_str("(");
    s.append(scoped.as_str());
    s.append(")\n");
    assert(s@ =~= label_asm(scope@, label@));
    s
}

/// Writes the unconditional jump of a goto command.
pub fn write_goto(scope: &str, label: &str) -> (r: String)
    ensures
        r@ == goto_asm(scope@, label@),
{
    let scoped = scoped_label_text(scope, label);
    let mut s = String::from_str("@");
    s.append(scoped.as_str());
    s.append("\n0;JMP\n\n");
    assert(s@ =~= goto_asm(scope@, label@));
    s
}

/// Writes the conditional jump of an if-goto command: pop one value, jump
/// when it is non-zero.
pub fn write_if(scope: &str, label: &str) -> (r: String)
    ensures
        r@ == if_asm(scope@, label@),
{
    let scoped = scoped_label_text(scope, label);
    let mut s = String::from_str("// if-goto");
    s.append("\n@SP\nM=M-1\nA=M\nD=M");
    s.append("\n@");
    s.append(scoped.as_str());
    s.append("\nD;JNE\n\n");
    assert(s@ =~= if_asm(scope@, label@));
    s
}

/// Writes the fragment of a function command: the entry label, then a loop
/// of exactly `nvars` zero-initialized local slots, whatever `nvars` is.
pub fn write_function(function_name: &str, nvars: u8) -> (r: String)
    ensures
        r@ == function_asm(function_name@, nvars),
{
    let mut s = String::from_str("(");
    s.append(function_name);
    s.append(")\n");
    let ghost head = "("@ + function_name@ + ")\n"@;
    assert(s@ =~= head);
    let mut k: u8 = 0;
    while k < nvars
        invariant
            0 <= k <= nvars,
            s@ == head + repeat_seq(init_local_asm(), k as nat),
        decreases nvars - k,
    {
        s.append("@SP\nA=M\nM=0\n@SP\nM=M+1\n");
        k += 1;
        assert(s@ =~= head + repeat_seq(init_local_asm(), k as nat));
    }
    s.append("\n");
    assert(s@ =~= function_asm(function_name@, nvars));
    s
}

/// Writes the fragment of a call command, drawing one fresh counter value
/// for the globally unique return-address label of this call site.
pub fn write_call(function_name: &str, nargs: u8, gen: &mut LabelGenerator) -> (r: String)
    requires
        old(gen).next < u128::MAX,
    ensures
        r@ == call_asm(function_name@, nargs, old(gen).next as nat),
        final(gen).next == old(gen).next + 1,
{
    let c = gen.fresh();
    let ret = return_label_text(function_name, c);
    let mut s = String::from_str("// call ");
    s.append(function_name);
    s.append("\n@");
    s.append(ret.as_str());
    s.append("\nD=A\n@SP\nA=M\nM=D\n@SP\nM=M+1\n");
    s.append("@LCL\nD=M\n@SP\nA=M\nM=D\n@SP\nM=M+1\n");
    s.append("@ARG\nD=M\n@SP\nA=M\nM=D\n@SP\nM=M+1\n");
    s.append("@THIS\nD=M\n@SP\nA=M\nM=D\n@SP\nM=M+1\n");
    s.append("@THAT\nD=M\n@SP\nA=M\nM=D\n@SP\nM=M+1\n");
    s.append("@SP\nD=M\n@");
    s.append(u16_to_string(nargs as u16 + 5).as_str());
    s.append("\nD=D-A\n@ARG\nM=D\n");
    s.append("@SP\nD=M\n@LCL\nM=D\n");
    s.append("@");
    s.append(function_name);
    s.append("\n0;JMP\n");
    s.append("(");
    s.append(ret.as_str());
    s.append(")\n\n\n");
    assert(s@ =~= call_asm(function_name@, nargs, c as nat));
    s
}

/// Writes the fragment of a return command, one atomic step sequence.
pub fn write_return() -> (r: String)
    ensures
        r@ == return_asm(),
{
    String::from_str(
        "// return\n@LCL\nD=M\n@R13\nM=D\n@5\nA=D-A\nD=M\n@R14\nM=D\n@SP\nA=M-1\nD=M\n@ARG\nA=M\nM=D\n@ARG\nD=M+1\n@SP\nM=D\n@R13\nD=M-1\nA=D\nD=M\n@THAT\nM=D\n@R13\nD=M\n@2\nA=D-A\nD=M\n@THIS\nM=D\n@R13\nD=M\n@3\nA=D-A\nD=M\n@ARG\nM=D\n@R13\nD=M\n@4\nA=D-A\nD=M\n@LCL\nM=D\n@R14\nA=M\n0;JMP\n",
    )
}

/// Writes the bootstrap prologue: stack pointer to 256, then a call of the
/// entry function `Sys.init`.
pub fn write_bootstrap(gen: &mut LabelGenerator) -> (r: String)
    requires
        old(gen).next < u128::MAX,
    ensures
        r@ == bootstrap_asm(old(gen).next as nat),
        final(gen).next == old(gen).next + 1,
{
    let mut s = String::from_str("// Bootstrap Code\n@256\nD=A\n@SP\nM=D\n");
    let call = write_call("Sys.init", 0, gen);
    s.append(call.as_str());
    assert(s@ =~= bootstrap_asm(old(gen).next as nat));
    s
}

} // verus!
