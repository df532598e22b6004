//! The driver: sequences the command reader and the code generator across
//! an ordered list of source modules, prepends the bootstrap prologue, and
//! emits one assembly stream. A single counter, fresh per run, feeds every
//! branch and return label, so one run never reuses a label and two runs
//! of the same input produce identical text.

use vstd::prelude::*;
use crate::code::{arith_asm, arith_fresh, bootstrap_asm, call_asm, function_asm, goto_asm, if_asm, label_asm, push_pop_asm, push_pop_err, push_pop_valid, return_asm, write_arithmetic, write_bootstrap, write_call, write_function, write_goto, write_if, write_label, write_push_pop, write_return};
use crate::command::{CommandType, CommandView};
use crate::errors::{HVMError, HVMErrorView};
use crate::labels::LabelGenerator;
use crate::parser::{parse_file, spec_parse, ModuleView, SourceModule};

verus! {

/// The fragment of one command inside module `module` at counter value
/// `c`, or the error it is rejected with. A `NewFile` marker emits
/// nothing.
pub open spec fn gen_command(cmd: CommandView, module: Seq<char>, c: nat) -> Result<
    Seq<char>,
    HVMErrorView,
> {
    match cmd {
        CommandView::Arithmetic(op) => Ok(arith_asm(op, c)),
        CommandView::Push(_, _) | CommandView::Pop(_, _) => if push_pop_valid(cmd) {
            Ok(push_pop_asm(cmd, module))
        } else {
            Err(push_pop_err(cmd))
        },
        CommandView::Label(scope, label) => Ok(label_asm(scope, label)),
        CommandView::Goto(scope, label) => Ok(goto_asm(scope, label)),
        CommandView::If(scope, label) => Ok(if_asm(scope, label)),
        CommandView::Function(name, nvars) => Ok(function_asm(name, nvars)),
        CommandView::Call(name, nargs) => Ok(call_asm(name, nargs, c)),
        CommandView::Return => Ok(return_asm()),
        CommandView::NewFile(_) => Ok(Seq::empty()),
    }
}

/// How many counter values the fragment of `cmd` consumes.
pub open spec fn counter_after(cmd: CommandView, c: nat) -> nat {
    match cmd {
        CommandView::Arithmetic(op) => c + arith_fresh(op),
        CommandView::Call(_, _) => c + 1,
        _ => c,
    }
}

/// The concatenated fragments of the commands from index `i` on, starting
/// inside module `module` at counter value `c`; or the first error.
pub open spec fn gen_from(cmds: Seq<CommandView>, i: nat, module: Seq<char>, c: nat) -> Result<
    Seq<char>,
    HVMErrorView,
>
    decreases cmds.len() - i,
{
    if i >= cmds.len() {
        Ok(Seq::empty())
    } else {
        match cmds[i as int] {
            CommandView::NewFile(m) => gen_from(cmds, i + 1, m, c),
            _ => match gen_command(cmds[i as int], module, c) {
                Ok(frag) => match gen_from(
                    cmds,
                    i + 1,
                    module,
                    counter_after(cmds[i as int], c),
                ) {
                    Ok(rest) => Ok(frag + rest),
                    Err(e) => Err(e),
                },
                Err(e) => Err(e),
            },
        }
    }
}

/// The whole output of one translation run over the given modules: the
/// bootstrap prologue at counter value 0, then every command's fragment in
/// order with the counter threaded through; or the first error, whether
/// from the reader or from the generator.
pub open spec fn spec_translate(mods: Seq<ModuleView>) -> Result<Seq<char>, HVMErrorView> {
    match spec_parse(mods) {
        Ok(cmds) => match gen_from(cmds, 0, Seq::empty(), 1) {
            Ok(body) => Ok(bootstrap_asm(0) + body),
            Err(e) => Err(e),
        },
        Err(e) => Err(e),
    }
}

/// Translates the given ordered source modules into one assembly stream:
/// bootstrap code first, then each module's commands in order, with a
/// fresh label counter for the run. The first malformed line or invalid
/// segment index aborts the run with its error.
pub fn translate(modules: &Vec<SourceModule>) -> (r: Result<String, HVMError>)
    ensures
        match r {
            Ok(s) => spec_translate(modules.deep_view()) == Ok::<_, HVMErrorView>(s@),
            Err(e) => spec_translate(modules.deep_view()) == Err::<Seq<char>, _>(e@),
        },
{
    let ghost mv = modules.deep_view();
    let instructions = match parse_file(modules) {
        Ok(instructions) => instructions,
        Err(e) => {
            return Err(e);
        },
    };
    let ghost cmds = instructions.deep_view();
    let mut gen = LabelGenerator::new();
    let mut output = write_bootstrap(&mut gen);
    let mut file_name = String::new();
    let mut i: usize = 0;
    proof {
        assert(file_name@ =~= Seq::<char>::empty());
        assert(output@ + Seq::<char>::empty() =~= output@);
    }
    while i < instructions.len()
        invariant
            i <= instructions@.len(),
            mv == modules.deep_view(),
            cmds == instructions.deep_view(),
            cmds.len() == instructions@.len(),
            forall|k: int| 0 <= k < cmds.len() ==> cmds[k] == #[trigger] instructions@[k]@,
            spec_parse(mv) == Ok::<_, HVMErrorView>(cmds),
            gen.next <= 1 + 2 * (i as int),
            spec_translate(mv) == (match gen_from(cmds, i as nat, file_name@, gen.next as nat) {
                Ok(rest) => Ok::<_, HVMErrorView>(output@ + rest),
                Err(e) => Err::<Seq<char>, _>(e),
            }),
        decreases instructions@.len() - i,
    {
        let instruction = &instructions[i];
        let ghost cv = cmds[i as int];
        let ghost c0 = gen.next as nat;
        let ghost out0 = output@;
        proof {
            assert(instruction@ == cv);
        }
        match instruction {
            CommandType::NewFile(fname) => {
                file_name = fname.clone();
            },
            CommandType::Arithmetic(op) => {
                let frag = write_arithmetic(*op, &mut gen);
                output.append(frag.as_str());
            },
            CommandType::Push(_, _) | CommandType::Pop(_, _) => {
                match write_push_pop(instruction, file_name.as_str()) {
                    Ok(frag) => {
                        output.append(frag.as_str());
                    },
                    Err(e) => {
                        return Err(e);
                    },
                }
            },
            CommandType::Call(function_name, nargs) => {
                let frag = write_call(function_name.as_str(), *nargs, &mut gen);
                output.append(frag.as_str());
            },
            CommandType::Function(function_name, nvars) => {
                let frag = write_function(function_name.as_str(), *nvars);
                output.append(frag.as_str());
            },
            CommandType::Goto(func_name, label) => {
                let frag = write_goto(func_name.as_str(), label.as_str());
                output.append(frag.as_str());
            },
            CommandType::If(func_name, label) => {
                let frag = write_if(func_name.as_str(), label.as_str());
                output.append(frag.as_str());
            },
            CommandType::Label(func_name, label) => {
                let frag = write_label(func_name.as_str(), label.as_str());
                output.append(frag.as_str());
            },
            CommandType::Return => {
                let frag = write_return();
                output.append(frag.as_str());
            },
        }
        proof {
            let a = gen_from(cmds, (i + 1) as nat, file_name@, gen.next as nat);
            if !(cv is NewFile) {
                let frag = gen_command(cv, file_name@, c0);
                if frag is Ok && a is Ok {
                    assert(out0 + (frag->Ok_0 + a->Ok_0) =~= (out0 + frag->Ok_0) + a->Ok_0);
                }
            }
        }
        i += 1;
    }
    proof {
        assert(output@ + Seq::<char>::empty() =~= output@);
    }
    Ok(output)
}

/// The counter value in force when the command at index `i` is generated:
/// `gen_from` threads the counter through the commands exactly this way,
/// starting from `c0`.
pub open spec fn counter_at(cmds: Seq<CommandView>, i: nat, c0: nat) -> nat
    decreases i,
{
    if i == 0 {
        c0
    } else {
        counter_after(cmds[i - 1], counter_at(cmds, (i - 1) as nat, c0))
    }
}

proof fn lemma_counter_after_ge(cmd: CommandView, c: nat)
    ensures
        counter_after(cmd, c) >= c,
{
}

proof fn lemma_counter_monotone(cmds: Seq<CommandView>, i: nat, j: nat, c0: nat)
    requires
        i <= j,
    ensures
        counter_at(cmds, j, c0) >= counter_at(cmds, i, c0),
    decreases j - i,
{
    if i < j {
        lemma_counter_monotone(cmds, i, (j - 1) as nat, c0);
        lemma_counter_after_ge(cmds[j - 1], counter_at(cmds, (j - 1) as nat, c0));
    }
}

/// Two comparison operators at distinct positions of one command stream
/// draw pairwise disjoint branch labels: the earlier site consumes two
/// counter values, and the counter never moves backwards, so the four
/// labels of the two sites are four distinct strings.
pub proof fn lemma_comparison_sites_disjoint(
    cmds: Seq<CommandView>,
    i: nat,
    j: nat,
    c0: nat,
    op_i: crate::command::ArithmeticOp,
    op_j: crate::command::ArithmeticOp,
)
    requires
        i < j < cmds.len(),
        cmds[i as int] == CommandView::Arithmetic(op_i),
        cmds[j as int] == CommandView::Arithmetic(op_j),
        crate::code::is_comparison(op_i),
        crate::code::is_comparison(op_j),
    ensures
        ({
            let ci = counter_at(cmds, i, c0);
            let cj = counter_at(cmds, j, c0);
            &&& crate::labels::count_label(ci) != crate::labels::count_label(cj)
            &&& crate::labels::count_label(ci) != crate::labels::count_label(cj + 1)
            &&& crate::labels::count_label(ci + 1) != crate::labels::count_label(cj)
            &&& crate::labels::count_label(ci + 1) != crate::labels::count_label(cj + 1)
        }),
{
    let ci = counter_at(cmds, i, c0);
    let cj = counter_at(cmds, j, c0);
    lemma_counter_monotone(cmds, i + 1, j, c0);
    assert(counter_at(cmds, i + 1, c0) == ci + 2);
    assert(cj >= ci + 2);
    crate::labels::lemma_count_labels_distinct(ci, cj);
    crate::labels::lemma_count_labels_distinct(ci, cj + 1);
    crate::labels::lemma_count_labels_distinct(ci + 1, cj);
    crate::labels::lemma_count_labels_distinct(ci + 1, cj + 1);
}

/// Two call sites of the same function at distinct positions of one
/// command stream define distinct return-address labels, however deep the
/// recursion: the earlier site consumes one counter value and the counter
/// never moves backwards.
pub proof fn lemma_call_sites_unique(
    cmds: Seq<CommandView>,
    i: nat,
    j: nat,
    c0: nat,
    f: Seq<char>,
    ni: u8,
    nj: u8,
)
    requires
        i < j < cmds.len(),
        cmds[i as int] == CommandView::Call(f, ni),
        cmds[j as int] == CommandView::Call(f, nj),
    ensures
        crate::labels::return_label(f, counter_at(cmds, i, c0)) != crate::labels::return_label(
            f,
            counter_at(cmds, j, c0),
        ),
{
    let ci = counter_at(cmds, i, c0);
    let cj = counter_at(cmds, j, c0);
    lemma_counter_monotone(cmds, i + 1, j, c0);
    assert(counter_at(cmds, i + 1, c0) == ci + 1);
    assert(cj >= ci + 1);
    crate::labels::lemma_return_labels_distinct(f, ci, cj);
}

/// Lexicographic comparison of two names by code point, from index `i` on.
pub open spec fn lex_cmp_from(a: Seq<char>, b: Seq<char>, i: nat) -> core::cmp::Ordering
    decreases a.len() - i,
{
    if i >= a.len() && i >= b.len() {
        core::cmp::Ordering::Equal
    } else if i >= a.len() {
        core::cmp::Ordering::Less
    } else if i >= b.len() {
        core::cmp::Ordering::Greater
    } else if (a[i as int] as u32) < (b[i as int] as u32) {
        core::cmp::Ordering::Less
    } else if (a[i as int] as u32) > (b[i as int] as u32) {
        core::cmp::Ordering::Greater
    } else {
        lex_cmp_from(a, b, i + 1)
    }
}

/// The deterministic module order of the driver: modules go in name
/// order, except that the entry module `Sys.vm` always comes last.
pub open spec fn module_cmp(a: Seq<char>, b: Seq<char>) -> core::cmp::Ordering {
    if a == "Sys.vm"@ {
        core::cmp::Ordering::Greater
    } else if b == "Sys.vm"@ {
        core::cmp::Ordering::Less
    } else {
        lex_cmp_from(a, b, 0)
    }
}

/// Orders two module file names for translation: name order, with the
/// entry module `Sys.vm` sorted last.
pub fn module_order(a: &str, b: &str) -> (r: core::cmp::Ordering)
    ensures
        r == module_cmp(a@, b@),
{
    if crate::text::str_eq(a, "Sys.vm") {
        return core::cmp::Ordering::Greater;
    }
    if crate::text::str_eq(b, "Sys.vm") {
        return core::cmp::Ordering::Less;
    }
    let n = a.unicode_len();
    let m = b.unicode_len();
    let mut i: usize = 0;
    loop
        invariant
            i <= n,
            i <= m,
            n == a@.len(),
            m == b@.len(),
            lex_cmp_from(a@, b@, 0) == lex_cmp_from(a@, b@, i as nat),
        ensures
            i <= n,
            i <= m,
            n == a@.len(),
            m == b@.len(),
            lex_cmp_from(a@, b@, 0) == lex_cmp_from(a@, b@, i as nat),
            i >= n || i >= m || a@[i as int] != b@[i as int],
        decreases n - i,
    {
        if i >= n || i >= m {
            break;
        }
        let ca = a.get_char(i);
        let cb = b.get_char(i);
        if ca != cb {
            break;
        }
        i += 1;
    }
    if i >= n && i >= m {
        core::cmp::Ordering::Equal
    } else if i >= n {
        core::cmp::Ordering::Less
    } else if i >= m {
        core::cmp::Ordering::Greater
    } else if (a.get_char(i) as u32) < (b.get_char(i) as u32) {
        core::cmp::Ordering::Less
    } else {
        core::cmp::Ordering::Greater
    }
}

/// Translating the same module list twice, each run with a fresh counter,
/// yields character-identical output streams: the translation is a pure
/// function of the module list, so repeated runs agree label for label.
pub proof fn lemma_translate_deterministic(mods1: Seq<ModuleView>, mods2: Seq<ModuleView>)
    requires
        mods1 == mods2,
    ensures
        spec_translate(mods1) == spec_translate(mods2),
{
}

} // verus!
