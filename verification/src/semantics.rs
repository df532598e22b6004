//! The meaning of the straight-line fragments the code generator emits: a
//! machine model of the target's registers and flat memory, an
//! instruction-by-instruction semantics, and proofs that the rendered
//! instruction sequences are exactly the emitted text. On top of it, two
//! laws: the push/pop round trip is a stack-neutral no-op that leaves all
//! segment memory unchanged, and a function prologue zero-initializes
//! exactly its local slot count, one slot at a time.

use vstd::prelude::*;
use crate::code::{pop_asm, push_asm, seg_name};
use crate::command::MemorySegment;
use crate::text::dec_str;

verus! {

/// The pointer registers the fragments address symbolically.
pub enum Reg {
    SP,
    LCL,
    ARG,
    THIS,
    THAT,
}

/// The memory address of a pointer register.
pub open spec fn reg_addr(r: Reg) -> int {
    match r {
        Reg::SP => 0,
        Reg::LCL => 1,
        Reg::ARG => 2,
        Reg::THIS => 3,
        Reg::THAT => 4,
    }
}

/// The register symbol as it appears in an address instruction.
pub open spec fn reg_text(r: Reg) -> Seq<char> {
    match r {
        Reg::SP => "SP"@,
        Reg::LCL => "LCL"@,
        Reg::ARG => "ARG"@,
        Reg::THIS => "THIS"@,
        Reg::THAT => "THAT"@,
    }
}

/// The computations the push, pop and local-initialization fragments
/// use.
pub enum Comp {
    Zero,
    A,
    D,
    M,
    DPlusM,
    MPlus1,
    MMinus1,
    APlus1,
}

/// The destinations the push and pop fragments use.
pub enum Dest {
    A,
    D,
    M,
}

/// One straight-line instruction: load a constant or a register symbol
/// into A, or compute into one destination.
pub enum Instr {
    At(u16),
    AtReg(Reg),
    C { dest: Dest, comp: Comp },
}

/// The text of one instruction, as one line.
pub open spec fn instr_text(instr: Instr) -> Seq<char> {
    match instr {
        Instr::At(v) => "@"@ + dec_str(v as nat) + "\n"@,
        Instr::AtReg(r) => "@"@ + reg_text(r) + "\n"@,
        Instr::C { dest, comp } => (match dest {
            Dest::A => "A="@,
            Dest::D => "D="@,
            Dest::M => "M="@,
        }) + (match comp {
            Comp::Zero => "0"@,
            Comp::A => "A"@,
            Comp::D => "D"@,
            Comp::M => "M"@,
            Comp::DPlusM => "D+M"@,
            Comp::MPlus1 => "M+1"@,
            Comp::MMinus1 => "M-1"@,
            Comp::APlus1 => "A+1"@,
        }) + "\n"@,
    }
}

/// The text of the instructions from index `k` on, one line each.
pub open spec fn render_from(instrs: Seq<Instr>, k: nat) -> Seq<char>
    decreases instrs.len() - k,
{
    if k >= instrs.len() {
        Seq::empty()
    } else {
        instr_text(instrs[k as int]) + render_from(instrs, k + 1)
    }
}

/// The machine: 32768 words of memory and the two registers.
pub struct MState {
    pub ram: Seq<u16>,
    pub a: u16,
    pub d: u16,
}

/// A well-formed machine has the full flat memory.
pub open spec fn m_wf(s: MState) -> bool {
    s.ram.len() == 32768
}

/// The memory cell the A register addresses.
pub open spec fn m_addr(s: MState) -> int {
    (s.a as int) % 32768
}

/// 16-bit wrapping addition.
pub open spec fn add16(x: int, y: int) -> u16 {
    (((x + y) % 0x10000) as u16)
}

/// The value of one computation in state `s`.
pub open spec fn eval_comp(s: MState, comp: Comp) -> u16 {
    match comp {
        Comp::Zero => 0,
        Comp::A => s.a,
        Comp::D => s.d,
        Comp::M => s.ram[m_addr(s)],
        Comp::DPlusM => add16(s.d as int, s.ram[m_addr(s)] as int),
        Comp::MPlus1 => add16(s.ram[m_addr(s)] as int, 1),
        Comp::MMinus1 => add16(s.ram[m_addr(s)] as int, -1),
        Comp::APlus1 => add16(s.a as int, 1),
    }
}

/// One step of the machine.
pub open spec fn step(s: MState, instr: Instr) -> MState {
    match instr {
        Instr::At(v) => MState { a: v, ..s },
        Instr::AtReg(r) => MState { a: reg_addr(r) as u16, ..s },
        Instr::C { dest, comp } => {
            let v = eval_comp(s, comp);
            match dest {
                Dest::A => MState { a: v, ..s },
                Dest::D => MState { d: v, ..s },
                Dest::M => MState { ram: s.ram.update(m_addr(s), v), ..s },
            }
        },
    }
}

/// The machine after the instructions from index `k` on.
pub open spec fn run_from(s: MState, instrs: Seq<Instr>, k: nat) -> MState
    decreases instrs.len() - k,
{
    if k >= instrs.len() {
        s
    } else {
        run_from(step(s, instrs[k as int]), instrs, k + 1)
    }
}

/// The machine after the whole instruction sequence.
pub open spec fn run(s: MState, instrs: Seq<Instr>) -> MState {
    run_from(s, instrs, 0)
}

proof fn lemma_run_offset(s: MState, x: Seq<Instr>, y: Seq<Instr>, j: nat)
    requires
        j <= y.len(),
    ensures
        run_from(s, x + y, (x.len() + j) as nat) == run_from(s, y, j),
    decreases y.len() - j,
{
    if j < y.len() {
        assert((x + y)[x.len() + j as int] == y[j as int]);
        lemma_run_offset(step(s, y[j as int]), x, y, j + 1);
    }
}

proof fn lemma_run_concat_from(s: MState, x: Seq<Instr>, y: Seq<Instr>, k: nat)
    requires
        k <= x.len(),
    ensures
        run_from(s, x + y, k) == run_from(run_from(s, x, k), y, 0),
    decreases x.len() - k,
{
    if k == x.len() {
        lemma_run_offset(s, x, y, 0);
    } else {
        assert((x + y)[k as int] == x[k as int]);
        lemma_run_concat_from(step(s, x[k as int]), x, y, k + 1);
    }
}

/// Running a concatenation runs the parts in order.
pub proof fn lemma_run_concat(s: MState, x: Seq<Instr>, y: Seq<Instr>)
    ensures
        run(s, x + y) == run(run(s, x), y),
{
    lemma_run_concat_from(s, x, y, 0);
}

/// The base-pointer register of a segment.
pub open spec fn base_reg(seg: MemorySegment) -> Reg {
    match seg {
        MemorySegment::Local => Reg::LCL,
        MemorySegment::Argument => Reg::ARG,
        MemorySegment::This => Reg::THIS,
        _ => Reg::THAT,
    }
}

/// The five instructions that push D: store at the stack pointer, then
/// advance it.
pub open spec fn push_x_instrs() -> Seq<Instr> {
    seq![
        Instr::AtReg(Reg::SP),
        Instr::C { dest: Dest::A, comp: Comp::M },
        Instr::C { dest: Dest::M, comp: Comp::D },
        Instr::AtReg(Reg::SP),
        Instr::C { dest: Dest::M, comp: Comp::MPlus1 },
    ]
}

/// The four instructions that pop into D: retreat the stack pointer, then
/// load.
pub open spec fn pop_y_instrs() -> Seq<Instr> {
    seq![
        Instr::AtReg(Reg::SP),
        Instr::C { dest: Dest::M, comp: Comp::MMinus1 },
        Instr::C { dest: Dest::A, comp: Comp::M },
        Instr::C { dest: Dest::D, comp: Comp::M },
    ]
}

/// A repetition of one instruction.
pub open spec fn repeat_instr(x: Instr, n: nat) -> Seq<Instr>
    decreases n,
{
    if n == 0 {
        Seq::empty()
    } else {
        repeat_instr(x, (n - 1) as nat) + seq![x]
    }
}

/// The addressing walk from a base register to base + index.
pub open spec fn incr_instrs(i: nat) -> Seq<Instr> {
    if i == 0 {
        seq![Instr::C { dest: Dest::A, comp: Comp::M }]
    } else {
        seq![Instr::C { dest: Dest::A, comp: Comp::MPlus1 }] + repeat_instr(
            Instr::C { dest: Dest::A, comp: Comp::APlus1 },
            (i - 1) as nat,
        )
    }
}

/// The instruction sequence of `push seg i` for the segments whose
/// addresses are register-resolved: the four base-pointer segments, temp
/// and pointer.
pub open spec fn push_instrs(seg: MemorySegment, i: u16) -> Seq<Instr> {
    match seg {
        MemorySegment::Temp => seq![
            Instr::At(i),
            Instr::C { dest: Dest::D, comp: Comp::A },
            Instr::At((i + 5) as u16),
            Instr::C { dest: Dest::D, comp: Comp::M },
        ] + push_x_instrs(),
        MemorySegment::Pointer => seq![
            Instr::AtReg(
                if i == 0 {
                    Reg::THIS
                } else {
                    Reg::THAT
                },
            ),
            Instr::C { dest: Dest::D, comp: Comp::M },
        ] + push_x_instrs(),
        _ => seq![
            Instr::At(i),
            Instr::C { dest: Dest::D, comp: Comp::A },
            Instr::AtReg(base_reg(seg)),
            Instr::C { dest: Dest::A, comp: Comp::DPlusM },
            Instr::C { dest: Dest::D, comp: Comp::M },
        ] + push_x_instrs(),
    }
}

/// The instruction sequence of `pop seg i` for the same segments.
pub open spec fn pop_instrs(seg: MemorySegment, i: u16) -> Seq<Instr> {
    match seg {
        MemorySegment::Temp => pop_y_instrs() + seq![
            Instr::At((i + 5) as u16),
            Instr::C { dest: Dest::M, comp: Comp::D },
        ],
        MemorySegment::Pointer => pop_y_instrs() + seq![
            Instr::AtReg(
                if i == 0 {
                    Reg::THIS
                } else {
                    Reg::THAT
                },
            ),
            Instr::C { dest: Dest::M, comp: Comp::D },
        ],
        _ => pop_y_instrs() + seq![Instr::AtReg(base_reg(seg))] + incr_instrs(i as nat) + seq![
            Instr::C { dest: Dest::M, comp: Comp::D },
        ],
    }
}

/// The memory cell that `seg[i]` resolves to in state `s`, for the
/// register-resolved segments.
pub open spec fn src_addr(s: MState, seg: MemorySegment, i: u16) -> int {
    match seg {
        MemorySegment::Temp => i + 5,
        MemorySegment::Pointer => if i == 0 {
            3int
        } else {
            4int
        },
        _ => (add16(i as int, s.ram[reg_addr(base_reg(seg))] as int) as int) % 32768,
    }
}

/// Walking the A register up by one, `n` times.
proof fn lemma_run_walk(s: MState, n: nat)
    ensures
        run(s, repeat_instr(Instr::C { dest: Dest::A, comp: Comp::APlus1 }, n)) == (MState {
            a: add16(s.a as int, n as int),
            ..s
        }),
    decreases n,
{
    let walk = Instr::C { dest: Dest::A, comp: Comp::APlus1 };
    if n == 0 {
        assert(add16(s.a as int, 0) == s.a) by {
            vstd::arithmetic::div_mod::lemma_small_mod(s.a as nat, 0x10000);
        }
        assert(run(s, repeat_instr(walk, 0)) =~= s);
    } else {
        lemma_run_walk(s, (n - 1) as nat);
        lemma_run_concat(s, repeat_instr(walk, (n - 1) as nat), seq![walk]);
        let s1 = run(s, repeat_instr(walk, (n - 1) as nat));
        assert(run(s1, seq![walk]) == step(s1, walk)) by {
            reveal_with_fuel(run_from, 3);
        }
        assert(add16(add16(s.a as int, n - 1) as int, 1) == add16(s.a as int, n as int)) by {
            vstd::arithmetic::div_mod::lemma_add_mod_noop(s.a as int + (n - 1), 1, 0x10000);
            vstd::arithmetic::div_mod::lemma_mod_twice(s.a as int + (n - 1), 0x10000);
        }
    }
}

/// The effect of the push tail: D lands in the vacated stack cell and the
/// stack pointer advances by one.
proof fn lemma_push_x_effect(s: MState)
    requires
        m_wf(s),
        1 <= s.ram[0] < 32767,
    ensures
        run(s, push_x_instrs()) == (MState {
            ram: s.ram.update(s.ram[0] as int, s.d).update(0, (s.ram[0] + 1) as u16),
            a: 0,
            d: s.d,
        }),
{
    reveal_with_fuel(run_from, 7);
    vstd::arithmetic::div_mod::lemma_small_mod(0, 32768);
    vstd::arithmetic::div_mod::lemma_small_mod(s.ram[0] as nat, 32768);
    vstd::arithmetic::div_mod::lemma_small_mod((s.ram[0] + 1) as nat, 0x10000);
}

/// The effect of the whole push fragment: it reads the source cell and
/// pushes the value.
proof fn lemma_push_effect(s: MState, seg: MemorySegment, i: u16)
    requires
        m_wf(s),
        seg != MemorySegment::Static && seg != MemorySegment::Constant,
        seg == MemorySegment::Temp ==> i <= 7,
        seg == MemorySegment::Pointer ==> i <= 1,
        5 <= s.ram[0] < 32767,
    ensures
        run(s, push_instrs(seg, i)) == (MState {
            ram: s.ram.update(s.ram[0] as int, s.ram[src_addr(s, seg, i)]).update(
                0,
                (s.ram[0] + 1) as u16,
            ),
            a: 0,
            d: s.ram[src_addr(s, seg, i)],
        }),
{
    vstd::arithmetic::div_mod::lemma_small_mod(0, 32768);
    match seg {
        MemorySegment::Temp => {
            let head = seq![
                Instr::At(i),
                Instr::C { dest: Dest::D, comp: Comp::A },
                Instr::At((i + 5) as u16),
                Instr::C { dest: Dest::D, comp: Comp::M },
            ];
            lemma_run_concat(s, head, push_x_instrs());
            vstd::arithmetic::div_mod::lemma_small_mod((i + 5) as nat, 32768);
            assert(run(s, head) == (MState { a: (i + 5) as u16, d: s.ram[i + 5], ..s })) by {
                reveal_with_fuel(run_from, 6);
            }
            lemma_push_x_effect(MState { a: (i + 5) as u16, d: s.ram[i + 5], ..s });
        },
        MemorySegment::Pointer => {
            let r = if i == 0 {
                Reg::THIS
            } else {
                Reg::THAT
            };
            let head = seq![Instr::AtReg(r), Instr::C { dest: Dest::D, comp: Comp::M }];
            lemma_run_concat(s, head, push_x_instrs());
            vstd::arithmetic::div_mod::lemma_small_mod(reg_addr(r) as nat, 32768);
            assert(run(s, head) == (MState {
                a: reg_addr(r) as u16,
                d: s.ram[reg_addr(r)],
                ..s
            })) by {
                reveal_with_fuel(run_from, 4);
            }
            lemma_push_x_effect(MState { a: reg_addr(r) as u16, d: s.ram[reg_addr(r)], ..s });
        },
        _ => {
            let r = base_reg(seg);
            let head = seq![
                Instr::At(i),
                Instr::C { dest: Dest::D, comp: Comp::A },
                Instr::AtReg(r),
                Instr::C { dest: Dest::A, comp: Comp::DPlusM },
                Instr::C { dest: Dest::D, comp: Comp::M },
            ];
            lemma_run_concat(s, head, push_x_instrs());
            vstd::arithmetic::div_mod::lemma_small_mod(reg_addr(r) as nat, 32768);
            let addr = add16(i as int, s.ram[reg_addr(r)] as int);
            assert(run(s, head) == (MState {
                a: addr,
                d: s.ram[addr as int % 32768],
                ..s
            })) by {
                reveal_with_fuel(run_from, 7);
            }
            lemma_push_x_effect(MState { a: addr, d: s.ram[addr as int % 32768], ..s });
        },
    }
}

/// The effect of the pop head: the stack pointer retreats by one and D
/// takes the value at the new stack top.
proof fn lemma_pop_y_effect(s: MState)
    requires
        m_wf(s),
        2 <= s.ram[0] < 32768,
    ensures
        run(s, pop_y_instrs()) == (MState {
            ram: s.ram.update(0, (s.ram[0] - 1) as u16),
            a: (s.ram[0] - 1) as u16,
            d: s.ram[s.ram[0] - 1],
        }),
{
    reveal_with_fuel(run_from, 6);
    vstd::arithmetic::div_mod::lemma_small_mod(0, 32768);
    vstd::arithmetic::div_mod::lemma_small_mod((s.ram[0] - 1) as nat, 32768);
    vstd::arithmetic::div_mod::lemma_small_mod((s.ram[0] - 1) as nat, 0x10000);
}

/// The effect of the addressing walk: A lands on base + index, where base
/// is the value of the cell A pointed at.
proof fn lemma_incr_effect(s: MState, i: u16)
    requires
        m_wf(s),
    ensures
        run(s, incr_instrs(i as nat)) == (MState {
            a: add16(s.ram[m_addr(s)] as int, i as int),
            ..s
        }),
{
    let m = s.ram[m_addr(s)];
    if i == 0 {
        assert(add16(m as int, 0) == m) by {
            vstd::arithmetic::div_mod::lemma_small_mod(m as nat, 0x10000);
        }
        assert(run(s, incr_instrs(0)) == (MState { a: m, ..s })) by {
            reveal_with_fuel(run_from, 3);
        }
    } else {
        let first = seq![Instr::C { dest: Dest::A, comp: Comp::MPlus1 }];
        let rest = repeat_instr(Instr::C { dest: Dest::A, comp: Comp::APlus1 }, (i - 1) as nat);
        lemma_run_concat(s, first, rest);
        assert(run(s, first) == (MState { a: add16(m as int, 1), ..s })) by {
            reveal_with_fuel(run_from, 3);
        }
        lemma_run_walk(MState { a: add16(m as int, 1), ..s }, (i - 1) as nat);
        assert(add16(add16(m as int, 1) as int, i - 1) == add16(m as int, i as int)) by {
            vstd::arithmetic::div_mod::lemma_add_mod_noop(m as int + 1, i - 1, 0x10000);
            vstd::arithmetic::div_mod::lemma_mod_twice(m as int + 1, 0x10000);
        }
    }
}

/// The round-trip law over the machine semantics: from any well-formed
/// state whose stack pointer lies above the register area, running the
/// instructions of `push seg i` and then of `pop seg i` brings the stack
/// pointer back to its old value and leaves every memory cell unchanged,
/// except that the vacated cell just above the stack top holds a copy of
/// the transported value. Holds for every register-resolved segment:
/// local, argument, this, that, temp and pointer.
pub proof fn theorem_push_pop_round_trip(s: MState, seg: MemorySegment, i: u16)
    requires
        m_wf(s),
        seg != MemorySegment::Static && seg != MemorySegment::Constant,
        seg == MemorySegment::Temp ==> i <= 7,
        seg == MemorySegment::Pointer ==> i <= 1,
        5 <= s.ram[0] < 32767,
    ensures
        ({
            let sp = s.ram[0] as int;
            let s2 = run(s, push_instrs(seg, i) + pop_instrs(seg, i));
            &&& s2.ram == s.ram.update(sp, s.ram[src_addr(s, seg, i)])
            &&& s2.ram[0] == s.ram[0]
            &&& forall|k: int| 0 <= k < 32768 && k != sp ==> s2.ram[k] == s.ram[k]
        }),
{
    let sp = s.ram[0] as int;
    let v = s.ram[src_addr(s, seg, i)];
    lemma_run_concat(s, push_instrs(seg, i), pop_instrs(seg, i));
    lemma_push_effect(s, seg, i);
    let s1 = run(s, push_instrs(seg, i));
    lemma_pop_y_effect(s1);
    let sy = run(s1, pop_y_instrs());
    assert(sy.ram =~= s.ram.update(sp, v));
    assert(sy.d == v);
    match seg {
        MemorySegment::Temp => {
            let tail = seq![Instr::At((i + 5) as u16), Instr::C { dest: Dest::M, comp: Comp::D }];
            lemma_run_concat(s1, pop_y_instrs(), tail);
            vstd::arithmetic::div_mod::lemma_small_mod((i + 5) as nat, 32768);
            let s2 = run(sy, tail);
            assert(s2.ram == sy.ram.update(i + 5, v)) by {
                reveal_with_fuel(run_from, 4);
            }
            assert(s2.ram =~= s.ram.update(sp, v));
            assert(run(s1, pop_instrs(seg, i)).ram =~= s.ram.update(sp, v));
        },
        MemorySegment::Pointer => {
            let r = if i == 0 {
                Reg::THIS
            } else {
                Reg::THAT
            };
            let tail = seq![Instr::AtReg(r), Instr::C { dest: Dest::M, comp: Comp::D }];
            lemma_run_concat(s1, pop_y_instrs(), tail);
            vstd::arithmetic::div_mod::lemma_small_mod(reg_addr(r) as nat, 32768);
            let s2 = run(sy, tail);
            assert(s2.ram == sy.ram.update(reg_addr(r), v)) by {
                reveal_with_fuel(run_from, 4);
            }
            assert(s2.ram =~= s.ram.update(sp, v));
            assert(run(s1, pop_instrs(seg, i)).ram =~= s.ram.update(sp, v));
        },
        _ => {
            let r = base_reg(seg);
            let base = s.ram[reg_addr(r)] as int;
            let py_ar = pop_y_instrs() + seq![Instr::AtReg(r)];
            let inc = incr_instrs(i as nat);
            let cmd = seq![Instr::C { dest: Dest::M, comp: Comp::D }];
            assert(pop_instrs(seg, i) =~= (py_ar + inc) + cmd);
            lemma_run_concat(s1, py_ar + inc, cmd);
            lemma_run_concat(s1, py_ar, inc);
            lemma_run_concat(s1, pop_y_instrs(), seq![Instr::AtReg(r)]);
            let sr = run(sy, seq![Instr::AtReg(r)]);
            assert(sr == (MState { a: reg_addr(r) as u16, ..sy })) by {
                reveal_with_fuel(run_from, 3);
            }
            vstd::arithmetic::div_mod::lemma_small_mod(reg_addr(r) as nat, 32768);
            assert(sr.ram[m_addr(sr)] == s.ram[reg_addr(r)]);
            lemma_incr_effect(sr, i);
            let sw = run(sr, inc);
            assert(sw.a == add16(base, i as int));
            let s2 = run(sw, cmd);
            assert(s2.ram == sw.ram.update(sw.a as int % 32768, v)) by {
                reveal_with_fuel(run_from, 3);
            }
            assert(add16(base, i as int) == add16(i as int, base));
            assert(sw.a as int % 32768 == src_addr(s, seg, i));
            assert(s2.ram =~= s.ram.update(sp, v));
            assert(run(s1, pop_instrs(seg, i)).ram =~= s.ram.update(sp, v));
        },
    }
}


proof fn lemma_render_offset(x: Seq<Instr>, y: Seq<Instr>, j: nat)
    requires
        j <= y.len(),
    ensures
        render_from(x + y, (x.len() + j) as nat) == render_from(y, j),
    decreases y.len() - j,
{
    if j < y.len() {
        assert((x + y)[x.len() + j as int] == y[j as int]);
        lemma_render_offset(x, y, j + 1);
    }
}

proof fn lemma_render_concat_from(x: Seq<Instr>, y: Seq<Instr>, k: nat)
    requires
        k <= x.len(),
    ensures
        render_from(x + y, k) == render_from(x, k) + render_from(y, 0),
    decreases x.len() - k,
{
    if k == x.len() {
        lemma_render_offset(x, y, 0);
        assert(render_from(x, k) + render_from(y, 0) =~= render_from(y, 0));
    } else {
        assert((x + y)[k as int] == x[k as int]);
        lemma_render_concat_from(x, y, k + 1);
        assert(instr_text(x[k as int]) + (render_from(x, k + 1) + render_from(y, 0))
            =~= (instr_text(x[k as int]) + render_from(x, k + 1)) + render_from(y, 0));
    }
}

/// Rendering a concatenation renders the parts in order.
pub proof fn lemma_render_concat(x: Seq<Instr>, y: Seq<Instr>)
    ensures
        render_from(x + y, 0) == render_from(x, 0) + render_from(y, 0),
{
    lemma_render_concat_from(x, y, 0);
}

proof fn lemma_render_repeat(x: Instr, n: nat)
    ensures
        render_from(repeat_instr(x, n), 0) == crate::code::repeat_seq(instr_text(x), n),
    decreases n,
{
    reveal_with_fuel(render_from, 3);
    if n > 0 {
        lemma_render_repeat(x, (n - 1) as nat);
        lemma_render_concat(repeat_instr(x, (n - 1) as nat), seq![x]);
        assert(render_from(seq![x], 0) =~= instr_text(x));
    }
}

/// The rendered addressing walk is the emitted addressing text.
proof fn lemma_render_incr(i: nat)
    ensures
        render_from(incr_instrs(i), 0) == crate::code::incr_asm(i),
{
    reveal_with_fuel(render_from, 4);
    reveal_strlit("A=");
    reveal_strlit("M");
    reveal_strlit("M+1");
    reveal_strlit("A+1");
    reveal_strlit("\n");
    reveal_strlit("A=M\n");
    reveal_strlit("A=M+1\n");
    reveal_strlit("A=A+1\n");
    if i == 0 {
        assert(render_from(incr_instrs(0), 0) =~= "A="@ + "M"@ + "\n"@);
        assert("A="@ + "M"@ + "\n"@ =~= "A=M\n"@);
    } else {
        let walk = Instr::C { dest: Dest::A, comp: Comp::APlus1 };
        let first = seq![Instr::C { dest: Dest::A, comp: Comp::MPlus1 }];
        lemma_render_concat(first, repeat_instr(walk, (i - 1) as nat));
        lemma_render_repeat(walk, (i - 1) as nat);
        assert(render_from(first, 0) =~= "A="@ + "M+1"@ + "\n"@);
        assert("A="@ + "M+1"@ + "\n"@ =~= "A=M+1\n"@);
        assert(instr_text(walk) =~= "A="@ + "A+1"@ + "\n"@);
        assert("A="@ + "A+1"@ + "\n"@ =~= "A=A+1\n"@);
        assert(render_from(incr_instrs(i), 0) =~= "A=M+1\n"@ + crate::code::repeat_seq(
            "A=A+1\n"@,
            (i - 1) as nat,
        ));
    }
}

proof fn lemma_push_text_temp(i: u16, module: Seq<char>)
    requires
        i <= 7,
    ensures
        push_asm(MemorySegment::Temp, i, module) == "// push "@ + seg_name(MemorySegment::Temp)
            + " "@ + dec_str(i as nat) + "\n"@ + render_from(
            push_instrs(MemorySegment::Temp, i),
            0,
        ) + "\n"@,
{
    reveal_with_fuel(render_from, 8);
    reveal_strlit("@");
    reveal_strlit("\n");
    reveal_strlit("\n@");
    reveal_strlit("A=");
    reveal_strlit("D=");
    reveal_strlit("A");
    reveal_strlit("M");
    reveal_strlit("\nD=A\n@");
    reveal_strlit("\nD=M");
    reveal_strlit("// push temp ");
    reveal_strlit("// push ");
    reveal_strlit("temp");
    reveal_strlit(" ");
    reveal_strlit("\n\n");
    reveal_strlit("M=");
    reveal_strlit("D");
    reveal_strlit("SP");
    reveal_strlit("M+1");
    reveal_strlit("A=");
    reveal_strlit("A");
    reveal_strlit("M");
    reveal_strlit("\n@SP\nA=M\nM=D\n@SP\nM=M+1");
    assert(crate::code::push_x_asm() =~= "\n"@ + ("@"@ + "SP"@ + "\n"@) + ("A="@ + "M"@ + "\n"@)
        + ("M="@ + "D"@ + "\n"@) + ("@"@ + "SP"@ + "\n"@) + ("M="@ + "M+1"@));
    assert(render_from(push_x_instrs(), 0) =~= ("@"@ + "SP"@ + "\n"@) + ("A="@ + "M"@ + "\n"@) + (
    "M="@ + "D"@ + "\n"@) + ("@"@ + "SP"@ + "\n"@) + ("M="@ + "M+1"@ + "\n"@));
    let head = seq![
        Instr::At(i),
        Instr::C { dest: Dest::D, comp: Comp::A },
        Instr::At((i + 5) as u16),
        Instr::C { dest: Dest::D, comp: Comp::M },
    ];
    lemma_render_concat(head, push_x_instrs());
    assert(render_from(head, 0) =~= ("@"@ + dec_str(i as nat) + "\n"@) + ("D="@ + "A"@ + "\n"@)
        + ("@"@ + dec_str((i + 5) as nat) + "\n"@) + ("D="@ + "M"@ + "\n"@));
    assert("// push temp "@ =~= "// push "@ + "temp"@ + " "@);
    assert(push_asm(MemorySegment::Temp, i, module) =~= "// push "@ + seg_name(
        MemorySegment::Temp,
    ) + " "@ + dec_str(i as nat) + "\n"@ + render_from(push_instrs(MemorySegment::Temp, i), 0)
        + "\n"@);
}

proof fn lemma_push_text_pointer(i: u16, module: Seq<char>)
    ensures
        push_asm(MemorySegment::Pointer, i, module) == "// push "@ + seg_name(
            MemorySegment::Pointer,
        ) + " "@ + dec_str(i as nat) + "\n"@ + render_from(
            push_instrs(MemorySegment::Pointer, i),
            0,
        ) + "\n"@,
{
    reveal_with_fuel(render_from, 8);
    reveal_strlit("@");
    reveal_strlit("\n");
    reveal_strlit("\n@");
    reveal_strlit("D=");
    reveal_strlit("M");
    reveal_strlit("\nD=M");
    reveal_strlit("// push pointer ");
    reveal_strlit("// push ");
    reveal_strlit("pointer");
    reveal_strlit(" ");
    reveal_strlit("\n\n");
    reveal_strlit("M=");
    reveal_strlit("D");
    reveal_strlit("SP");
    reveal_strlit("M+1");
    reveal_strlit("A=");
    reveal_strlit("A");
    reveal_strlit("M");
    reveal_strlit("\n@SP\nA=M\nM=D\n@SP\nM=M+1");
    assert(crate::code::push_x_asm() =~= "\n"@ + ("@"@ + "SP"@ + "\n"@) + ("A="@ + "M"@ + "\n"@)
        + ("M="@ + "D"@ + "\n"@) + ("@"@ + "SP"@ + "\n"@) + ("M="@ + "M+1"@));
    assert(render_from(push_x_instrs(), 0) =~= ("@"@ + "SP"@ + "\n"@) + ("A="@ + "M"@ + "\n"@) + (
    "M="@ + "D"@ + "\n"@) + ("@"@ + "SP"@ + "\n"@) + ("M="@ + "M+1"@ + "\n"@));
    let r = if i == 0 {
        Reg::THIS
    } else {
        Reg::THAT
    };
    let head = seq![Instr::AtReg(r), Instr::C { dest: Dest::D, comp: Comp::M }];
    lemma_render_concat(head, push_x_instrs());
    assert(render_from(head, 0) =~= ("@"@ + reg_text(r) + "\n"@) + ("D="@ + "M"@ + "\n"@));
    assert("// push pointer "@ =~= "// push "@ + "pointer"@ + " "@);
    assert(push_asm(MemorySegment::Pointer, i, module) =~= "// push "@ + seg_name(
        MemorySegment::Pointer,
    ) + " "@ + dec_str(i as nat) + "\n"@ + render_from(push_instrs(MemorySegment::Pointer, i), 0)
        + "\n"@);
}

#[verifier::rlimit(100)]
proof fn lemma_push_text_base(seg: MemorySegment, i: u16, module: Seq<char>)
    requires
        seg == MemorySegment::Local || seg == MemorySegment::Argument || seg == MemorySegment::This
            || seg == MemorySegment::That,
    ensures
        push_asm(seg, i, module) == "// push "@ + seg_name(seg) + " "@ + dec_str(i as nat) + "\n"@
            + render_from(push_instrs(seg, i), 0) + "\n"@,
{
    reveal_with_fuel(render_from, 8);
    reveal_strlit("@");
    reveal_strlit("\n");
    reveal_strlit("\n@");
    reveal_strlit("A=");
    reveal_strlit("D=");
    reveal_strlit("A");
    reveal_strlit("M");
    reveal_strlit("D+M");
    reveal_strlit("\nD=A\n@");
    reveal_strlit("\nA=D+M\nD=M");
    reveal_strlit("\n\n");
    reveal_strlit("M=");
    reveal_strlit("D");
    reveal_strlit("SP");
    reveal_strlit("M+1");
    reveal_strlit("A=");
    reveal_strlit("A");
    reveal_strlit("M");
    reveal_strlit("\n@SP\nA=M\nM=D\n@SP\nM=M+1");
    assert(crate::code::push_x_asm() =~= "\n"@ + ("@"@ + "SP"@ + "\n"@) + ("A="@ + "M"@ + "\n"@)
        + ("M="@ + "D"@ + "\n"@) + ("@"@ + "SP"@ + "\n"@) + ("M="@ + "M+1"@));
    assert(render_from(push_x_instrs(), 0) =~= ("@"@ + "SP"@ + "\n"@) + ("A="@ + "M"@ + "\n"@) + (
    "M="@ + "D"@ + "\n"@) + ("@"@ + "SP"@ + "\n"@) + ("M="@ + "M+1"@ + "\n"@));
    let r = base_reg(seg);
    let head = seq![
        Instr::At(i),
        Instr::C { dest: Dest::D, comp: Comp::A },
        Instr::AtReg(r),
        Instr::C { dest: Dest::A, comp: Comp::DPlusM },
        Instr::C { dest: Dest::D, comp: Comp::M },
    ];
    lemma_render_concat(head, push_x_instrs());
    assert(render_from(head, 0) =~= ("@"@ + dec_str(i as nat) + "\n"@) + ("D="@ + "A"@ + "\n"@)
        + ("@"@ + reg_text(r) + "\n"@) + ("A="@ + "D+M"@ + "\n"@) + ("D="@ + "M"@ + "\n"@));
    assert(crate::code::base_symbol(seg) == reg_text(r));
    assert(push_asm(seg, i, module) =~= "// push "@ + seg_name(seg) + " "@ + dec_str(i as nat)
        + "\n"@ + render_from(push_instrs(seg, i), 0) + "\n"@);
}

/// The emitted text of a push of a register-resolved segment is exactly
/// its comment line, the rendered instruction sequence, and one blank
/// line.
pub proof fn lemma_push_text(seg: MemorySegment, i: u16, module: Seq<char>)
    requires
        seg != MemorySegment::Static && seg != MemorySegment::Constant,
        seg == MemorySegment::Temp ==> i <= 7,
    ensures
        push_asm(seg, i, module) == "// push "@ + seg_name(seg) + " "@ + dec_str(i as nat) + "\n"@
            + render_from(push_instrs(seg, i), 0) + "\n"@,
{
    match seg {
        MemorySegment::Temp => lemma_push_text_temp(i, module),
        MemorySegment::Pointer => lemma_push_text_pointer(i, module),
        _ => lemma_push_text_base(seg, i, module),
    }
}

proof fn lemma_pop_y_text()
    ensures
        "\n"@ + render_from(pop_y_instrs(), 0) == crate::code::pop_y_asm() + "\n"@,
{
    reveal_with_fuel(render_from, 6);
    reveal_strlit("@");
    reveal_strlit("\n");
    reveal_strlit("A=");
    reveal_strlit("D=");
    reveal_strlit("M=");
    reveal_strlit("D");
    reveal_strlit("M");
    reveal_strlit("M-1");
    reveal_strlit("SP");
    reveal_strlit("\n@SP\nM=M-1\nA=M\nD=M");
    assert(render_from(pop_y_instrs(), 0) =~= ("@"@ + "SP"@ + "\n"@) + ("M="@ + "M-1"@ + "\n"@) + (
    "A="@ + "M"@ + "\n"@) + ("D="@ + "M"@ + "\n"@));
    assert("\n"@ + render_from(pop_y_instrs(), 0) =~= crate::code::pop_y_asm() + "\n"@);
}

proof fn lemma_pop_text_temp(i: u16, module: Seq<char>)
    requires
        i <= 7,
    ensures
        pop_asm(MemorySegment::Temp, i, module) == "// pop "@ + seg_name(MemorySegment::Temp)
            + " "@ + dec_str(i as nat) + "\n"@ + render_from(
            pop_instrs(MemorySegment::Temp, i),
            0,
        ) + "\n"@,
{
    reveal_with_fuel(render_from, 8);
    reveal_strlit("@");
    reveal_strlit("\n");
    reveal_strlit("\n@");
    reveal_strlit("A=");
    reveal_strlit("D=");
    reveal_strlit("M=");
    reveal_strlit("D");
    reveal_strlit("M");
    reveal_strlit("M-1");
    reveal_strlit("SP");
    reveal_strlit("\nM=D\n\n");
    reveal_strlit("\n@SP\nM=M-1\nA=M\nD=M");
    reveal_strlit("// pop temp ");
    reveal_strlit("// pop ");
    reveal_strlit("temp");
    reveal_strlit(" ");
    assert(crate::code::pop_y_asm() =~= "\n"@ + ("@"@ + "SP"@ + "\n"@) + ("M="@ + "M-1"@ + "\n"@)
        + ("A="@ + "M"@ + "\n"@) + ("D="@ + "M"@));
    assert(render_from(pop_y_instrs(), 0) =~= ("@"@ + "SP"@ + "\n"@) + ("M="@ + "M-1"@ + "\n"@) + (
    "A="@ + "M"@ + "\n"@) + ("D="@ + "M"@ + "\n"@));
    let tail = seq![Instr::At((i + 5) as u16), Instr::C { dest: Dest::M, comp: Comp::D }];
    lemma_render_concat(pop_y_instrs(), tail);
    assert(render_from(tail, 0) =~= ("@"@ + dec_str((i + 5) as nat) + "\n"@) + ("M="@ + "D"@
        + "\n"@));
    assert("// pop temp "@ =~= "// pop "@ + "temp"@ + " "@);
    assert(pop_asm(MemorySegment::Temp, i, module) =~= "// pop "@ + seg_name(MemorySegment::Temp)
        + " "@ + dec_str(i as nat) + "\n"@ + render_from(pop_instrs(MemorySegment::Temp, i), 0)
        + "\n"@);
}

proof fn lemma_pop_text_pointer(i: u16, module: Seq<char>)
    ensures
        pop_asm(MemorySegment::Pointer, i, module) == "// pop "@ + seg_name(MemorySegment::Pointer)
            + " "@ + dec_str(i as nat) + "\n"@ + render_from(
            pop_instrs(MemorySegment::Pointer, i),
            0,
        ) + "\n"@,
{
    reveal_with_fuel(render_from, 8);
    reveal_strlit("@");
    reveal_strlit("\n");
    reveal_strlit("\n@");
    reveal_strlit("A=");
    reveal_strlit("D=");
    reveal_strlit("M=");
    reveal_strlit("D");
    reveal_strlit("M");
    reveal_strlit("M-1");
    reveal_strlit("SP");
    reveal_strlit("\nM=D\n\n");
    reveal_strlit("\n@SP\nM=M-1\nA=M\nD=M");
    reveal_strlit("// pop pointer ");
    reveal_strlit("// pop ");
    reveal_strlit("pointer");
    reveal_strlit(" ");
    assert(crate::code::pop_y_asm() =~= "\n"@ + ("@"@ + "SP"@ + "\n"@) + ("M="@ + "M-1"@ + "\n"@)
        + ("A="@ + "M"@ + "\n"@) + ("D="@ + "M"@));
    assert(render_from(pop_y_instrs(), 0) =~= ("@"@ + "SP"@ + "\n"@) + ("M="@ + "M-1"@ + "\n"@) + (
    "A="@ + "M"@ + "\n"@) + ("D="@ + "M"@ + "\n"@));
    let r = if i == 0 {
        Reg::THIS
    } else {
        Reg::THAT
    };
    let tail = seq![Instr::AtReg(r), Instr::C { dest: Dest::M, comp: Comp::D }];
    lemma_render_concat(pop_y_instrs(), tail);
    assert(render_from(tail, 0) =~= ("@"@ + reg_text(r) + "\n"@) + ("M="@ + "D"@ + "\n"@));
    assert("// pop pointer "@ =~= "// pop "@ + "pointer"@ + " "@);
    assert(pop_asm(MemorySegment::Pointer, i, module) =~= "// pop "@ + seg_name(
        MemorySegment::Pointer,
    ) + " "@ + dec_str(i as nat) + "\n"@ + render_from(pop_instrs(MemorySegment::Pointer, i), 0)
        + "\n"@);
}

#[verifier::rlimit(100)]
proof fn lemma_pop_text_base(seg: MemorySegment, i: u16, module: Seq<char>)
    requires
        seg == MemorySegment::Local || seg == MemorySegment::Argument || seg == MemorySegment::This
            || seg == MemorySegment::That,
    ensures
        pop_asm(seg, i, module) == "// pop "@ + seg_name(seg) + " "@ + dec_str(i as nat) + "\n"@
            + render_from(pop_instrs(seg, i), 0) + "\n"@,
{
    reveal_with_fuel(render_from, 8);
    reveal_strlit("@");
    reveal_strlit("\n");
    reveal_strlit("\n@");
    reveal_strlit("A=");
    reveal_strlit("D=");
    reveal_strlit("M=");
    reveal_strlit("D");
    reveal_strlit("M");
    reveal_strlit("M-1");
    reveal_strlit("SP");
    reveal_strlit("M=D\n\n");
    reveal_strlit("\n@SP\nM=M-1\nA=M\nD=M");
    assert(crate::code::pop_y_asm() =~= "\n"@ + ("@"@ + "SP"@ + "\n"@) + ("M="@ + "M-1"@ + "\n"@)
        + ("A="@ + "M"@ + "\n"@) + ("D="@ + "M"@));
    assert(render_from(pop_y_instrs(), 0) =~= ("@"@ + "SP"@ + "\n"@) + ("M="@ + "M-1"@ + "\n"@) + (
    "A="@ + "M"@ + "\n"@) + ("D="@ + "M"@ + "\n"@));
    let r = base_reg(seg);
    let py_ar = pop_y_instrs() + seq![Instr::AtReg(r)];
    let inc = incr_instrs(i as nat);
    let cmd = seq![Instr::C { dest: Dest::M, comp: Comp::D }];
    assert(pop_instrs(seg, i) =~= (py_ar + inc) + cmd);
    lemma_render_concat(py_ar + inc, cmd);
    lemma_render_concat(py_ar, inc);
    lemma_render_concat(pop_y_instrs(), seq![Instr::AtReg(r)]);
    lemma_render_incr(i as nat);
    assert(render_from(seq![Instr::AtReg(r)], 0) =~= "@"@ + reg_text(r) + "\n"@);
    assert(render_from(cmd, 0) =~= "M="@ + "D"@ + "\n"@);
    assert(crate::code::base_symbol(seg) == reg_text(r));
    assert(pop_asm(seg, i, module) =~= "// pop "@ + seg_name(seg) + " "@ + dec_str(i as nat)
        + "\n"@ + render_from(pop_instrs(seg, i), 0) + "\n"@);
}

/// The emitted text of a pop of a register-resolved segment is exactly
/// its comment line, the rendered instruction sequence, and one blank
/// line.
pub proof fn lemma_pop_text(seg: MemorySegment, i: u16, module: Seq<char>)
    requires
        seg != MemorySegment::Static && seg != MemorySegment::Constant,
        seg == MemorySegment::Temp ==> i <= 7,
    ensures
        pop_asm(seg, i, module) == "// pop "@ + seg_name(seg) + " "@ + dec_str(i as nat) + "\n"@
            + render_from(pop_instrs(seg, i), 0) + "\n"@,
{
    match seg {
        MemorySegment::Temp => lemma_pop_text_temp(i, module),
        MemorySegment::Pointer => lemma_pop_text_pointer(i, module),
        _ => lemma_pop_text_base(seg, i, module),
    }
}


/// The five instructions that push one zero-initialized local slot.
pub open spec fn init_local_instrs() -> Seq<Instr> {
    seq![
        Instr::AtReg(Reg::SP),
        Instr::C { dest: Dest::A, comp: Comp::M },
        Instr::C { dest: Dest::M, comp: Comp::Zero },
        Instr::AtReg(Reg::SP),
        Instr::C { dest: Dest::M, comp: Comp::MPlus1 },
    ]
}

/// `n` zero-initialized local slots, pushed one block after the other.
pub open spec fn init_blocks(n: nat) -> Seq<Instr>
    decreases n,
{
    if n == 0 {
        Seq::empty()
    } else {
        init_blocks((n - 1) as nat) + init_local_instrs()
    }
}

/// The rendered initialization blocks are exactly the zero-init text the
/// function fragment repeats.
pub proof fn lemma_init_blocks_text(n: nat)
    ensures
        render_from(init_blocks(n), 0) == crate::code::repeat_seq(crate::code::init_local_asm(), n),
    decreases n,
{
    reveal_with_fuel(render_from, 8);
    reveal_strlit("@");
    reveal_strlit("\n");
    reveal_strlit("A=");
    reveal_strlit("M=");
    reveal_strlit("M");
    reveal_strlit("0");
    reveal_strlit("M+1");
    reveal_strlit("SP");
    reveal_strlit("@SP\nA=M\nM=0\n@SP\nM=M+1\n");
    if n == 0 {
        assert(render_from(init_blocks(0), 0) =~= crate::code::repeat_seq(
            crate::code::init_local_asm(),
            0,
        ));
    } else {
        lemma_init_blocks_text((n - 1) as nat);
        lemma_render_concat(init_blocks((n - 1) as nat), init_local_instrs());
        assert(render_from(init_local_instrs(), 0) =~= ("@"@ + "SP"@ + "\n"@) + ("A="@ + "M"@
            + "\n"@) + ("M="@ + "0"@ + "\n"@) + ("@"@ + "SP"@ + "\n"@) + ("M="@ + "M+1"@
            + "\n"@));
        assert(render_from(init_local_instrs(), 0) =~= crate::code::init_local_asm());
    }
}

/// Every function prologue zero-initializes its local slots one by one,
/// whatever their count: running `n` initialization blocks zeroes exactly
/// the `n` cells above the stack top, advances the stack pointer by `n`,
/// and touches nothing else.
pub proof fn theorem_function_locals_zeroed(s: MState, n: nat)
    requires
        m_wf(s),
        1 <= s.ram[0],
        s.ram[0] + n < 32768,
    ensures
        ({
            let sp = s.ram[0] as int;
            let r = run(s, init_blocks(n));
            &&& m_wf(r)
            &&& r.ram[0] == s.ram[0] + n
            &&& forall|k: int| sp <= k < sp + n ==> r.ram[k] == 0
            &&& forall|k: int|
                1 <= k < 32768 && !(sp <= k < sp + n) ==> r.ram[k] == s.ram[k]
        }),
    decreases n,
{
    let sp = s.ram[0] as int;
    if n == 0 {
        assert(run(s, init_blocks(0)) =~= s);
    } else {
        theorem_function_locals_zeroed(s, (n - 1) as nat);
        lemma_run_concat(s, init_blocks((n - 1) as nat), init_local_instrs());
        let r1 = run(s, init_blocks((n - 1) as nat));
        vstd::arithmetic::div_mod::lemma_small_mod(0, 32768);
        vstd::arithmetic::div_mod::lemma_small_mod(r1.ram[0] as nat, 32768);
        vstd::arithmetic::div_mod::lemma_small_mod((r1.ram[0] + 1) as nat, 0x10000);
        assert(run(r1, init_local_instrs()) == (MState {
            ram: r1.ram.update(r1.ram[0] as int, 0).update(0, (r1.ram[0] + 1) as u16),
            a: 0,
            d: r1.d,
        })) by {
            reveal_with_fuel(run_from, 7);
        }
    }
}

} // verus!
