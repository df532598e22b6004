//! The command reader: turns the raw instruction text of an ordered list of
//! source modules into a stream of commands, inserting one `NewFile` marker
//! per module before its first command. Comments and blank lines are
//! stripped; command shapes are recognized by exact leading token; every
//! malformed line is a hard error that names the module and the line.

use vstd::prelude::*;
use crate::command::{ArithmeticOp, CommandType, CommandView, MemorySegment};
use crate::errors::{HVMError, HVMErrorView};
use crate::text::{dec_val, is_digits, parse_u16, str_eq};

verus! {

/// One source module: its logical name, which namespaces its static
/// segment, and its instruction text as lines.
pub struct SourceModule {
    pub name: String,
    pub lines: Vec<String>,
}

/// The mathematical view of a source module.
pub struct ModuleView {
    pub name: Seq<char>,
    pub lines: Seq<Seq<char>>,
}

impl View for SourceModule {
    type V = ModuleView;

    open spec fn view(&self) -> ModuleView {
        ModuleView { name: self.name@, lines: self.lines.deep_view() }
    }
}

impl DeepView for SourceModule {
    type V = ModuleView;

    open spec fn deep_view(&self) -> ModuleView {
        self.view()
    }
}

/// Whether `c` separates tokens.
pub open spec fn is_space(c: char) -> bool {
    c == ' ' || c == '\t' || c == '\r' || c == '\u{000B}' || c == '\u{000C}'
}

/// One left-to-right scan of a line: collects whitespace-separated tokens
/// and stops at the two-character comment marker.
pub open spec fn scan_tokens(s: Seq<char>, i: nat, cur: Seq<char>, acc: Seq<Seq<char>>) -> Seq<
    Seq<char>,
>
    decreases s.len() - i,
{
    if i >= s.len() {
        if cur.len() > 0 {
            acc.push(cur)
        } else {
            acc
        }
    } else if i + 1 < s.len() && s[i as int] == '/' && s[i as int + 1] == '/' {
        if cur.len() > 0 {
            acc.push(cur)
        } else {
            acc
        }
    } else if is_space(s[i as int]) {
        if cur.len() > 0 {
            scan_tokens(s, i + 1, Seq::empty(), acc.push(cur))
        } else {
            scan_tokens(s, i + 1, Seq::empty(), acc)
        }
    } else {
        scan_tokens(s, i + 1, cur.push(s[i as int]), acc)
    }
}

/// The tokens of one line, comments stripped.
pub open spec fn line_tokens(s: Seq<char>) -> Seq<Seq<char>> {
    scan_tokens(s, 0, Seq::empty(), Seq::empty())
}

pub(crate) fn is_space_char(c: char) -> (r: bool)
    ensures
        r == is_space(c),
{
    c == ' ' || c == '\t' || c == '\r' || c == '\u{000B}' || c == '\u{000C}'
}

/// Splits one line into its whitespace-separated tokens, ignoring
/// everything from the first comment marker on.
fn tokenize_line(line: &str) -> (toks: Vec<String>)
    ensures
        toks.deep_view() == line_tokens(line@),
{
    let n = line.unicode_len();
    let mut i: usize = 0;
    let mut cur = String::new();
    let mut acc: Vec<String> = Vec::new();
    proof {
        assert(cur@ =~= Seq::<char>::empty());
        assert(acc.deep_view() =~= Seq::<Seq<char>>::empty());
    }
    loop
        invariant
            i <= n,
            n == line@.len(),
            line_tokens(line@) == scan_tokens(line@, i as nat, cur@, acc.deep_view()),
        ensures
            i <= n,
            n == line@.len(),
            line_tokens(line@) == scan_tokens(line@, i as nat, cur@, acc.deep_view()),
            i >= n || (i + 1 < n && line@[i as int] == '/' && line@[i as int + 1] == '/'),
        decreases n - i,
    {
        if i >= n {
            break;
        }
        let c = line.get_char(i);
        if c == '/' && i + 1 < n && line.get_char(i + 1) == '/' {
            break;
        }
        if is_space_char(c) {
            if cur.unicode_len() > 0 {
                let ghost old_acc = acc.deep_view();
                let ghost old_cur = cur@;
                acc.push(cur);
                proof {
                    assert(acc.deep_view() =~= old_acc.push(old_cur));
                }
                cur = String::new();
                assert(cur@ =~= Seq::<char>::empty());
            } else {
                assert(cur@ =~= Seq::<char>::empty());
            }
        } else {
            cur.push(c);
        }
        i += 1;
    }
    if cur.unicode_len() > 0 {
        let ghost old_acc = acc.deep_view();
        let ghost old_cur = cur@;
        acc.push(cur);
        proof {
            assert(acc.deep_view() =~= old_acc.push(old_cur));
        }
    } else {
        assert(cur@ =~= Seq::<char>::empty());
    }
    acc
}

/// The segment named by a segment keyword token, if any.
pub open spec fn seg_of(tok: Seq<char>) -> Option<MemorySegment> {
    if tok == "local"@ {
        Some(MemorySegment::Local)
    } else if tok == "argument"@ {
        Some(MemorySegment::Argument)
    } else if tok == "this"@ {
        Some(MemorySegment::This)
    } else if tok == "that"@ {
        Some(MemorySegment::That)
    } else if tok == "temp"@ {
        Some(MemorySegment::Temp)
    } else if tok == "pointer"@ {
        Some(MemorySegment::Pointer)
    } else if tok == "static"@ {
        Some(MemorySegment::Static)
    } else if tok == "constant"@ {
        Some(MemorySegment::Constant)
    } else {
        None
    }
}

fn seg_of_token(tok: &str) -> (r: Option<MemorySegment>)
    ensures
        r == seg_of(tok@),
{
    if str_eq(tok, "local") {
        Some(MemorySegment::Local)
    } else if str_eq(tok, "argument") {
        Some(MemorySegment::Argument)
    } else if str_eq(tok, "this") {
        Some(MemorySegment::This)
    } else if str_eq(tok, "that") {
        Some(MemorySegment::That)
    } else if str_eq(tok, "temp") {
        Some(MemorySegment::Temp)
    } else if str_eq(tok, "pointer") {
        Some(MemorySegment::Pointer)
    } else if str_eq(tok, "static") {
        Some(MemorySegment::Static)
    } else if str_eq(tok, "constant") {
        Some(MemorySegment::Constant)
    } else {
        None
    }
}

/// The arithmetic operator named by a keyword token, if any.
pub open spec fn arith_of(tok: Seq<char>) -> Option<ArithmeticOp> {
    if tok == "add"@ {
        Some(ArithmeticOp::Add)
    } else if tok == "sub"@ {
        Some(ArithmeticOp::Sub)
    } else if tok == "neg"@ {
        Some(ArithmeticOp::Neg)
    } else if tok == "eq"@ {
        Some(ArithmeticOp::Eq)
    } else if tok == "gt"@ {
        Some(ArithmeticOp::Gt)
    } else if tok == "lt"@ {
        Some(ArithmeticOp::Lt)
    } else if tok == "and"@ {
        Some(ArithmeticOp::And)
    } else if tok == "or"@ {
        Some(ArithmeticOp::Or)
    } else if tok == "not"@ {
        Some(ArithmeticOp::Not)
    } else {
        None
    }
}

fn arith_of_token(tok: &str) -> (r: Option<ArithmeticOp>)
    ensures
        r == arith_of(tok@),
{
    if str_eq(tok, "add") {
        Some(ArithmeticOp::Add)
    } else if str_eq(tok, "sub") {
        Some(ArithmeticOp::Sub)
    } else if str_eq(tok, "neg") {
        Some(ArithmeticOp::Neg)
    } else if str_eq(tok, "eq") {
        Some(ArithmeticOp::Eq)
    } else if str_eq(tok, "gt") {
        Some(ArithmeticOp::Gt)
    } else if str_eq(tok, "lt") {
        Some(ArithmeticOp::Lt)
    } else if str_eq(tok, "and") {
        Some(ArithmeticOp::And)
    } else if str_eq(tok, "or") {
        Some(ArithmeticOp::Or)
    } else if str_eq(tok, "not") {
        Some(ArithmeticOp::Not)
    } else {
        None
    }
}

/// What one line means inside the scope of the current function: nothing,
/// one command, a malformed command, or an unknown leading keyword.
pub enum LineResult {
    Empty,
    Cmd(CommandView),
    BadParse,
    Unknown,
}

/// Classifies one line. The leading token picks the command shape by exact
/// match; the argument count and the operand forms are then checked
/// exactly. Push and pop indexes are 16-bit numbers; local and argument
/// counts are 8-bit numbers.
pub open spec fn line_command(line: Seq<char>, scope: Seq<char>) -> LineResult {
    let toks = line_tokens(line);
    if toks.len() == 0 {
        LineResult::Empty
    } else if arith_of(toks[0]) is Some {
        if toks.len() == 1 {
            LineResult::Cmd(CommandView::Arithmetic(arith_of(toks[0])->0))
        } else {
            LineResult::BadParse
        }
    } else if toks[0] == "push"@ || toks[0] == "pop"@ {
        if toks.len() == 3 && seg_of(toks[1]) is Some && is_digits(toks[2]) && dec_val(toks[2])
            <= u16::MAX {
            if toks[0] == "push"@ {
                LineResult::Cmd(CommandView::Push(seg_of(toks[1])->0, dec_val(toks[2]) as u16))
            } else {
                LineResult::Cmd(CommandView::Pop(seg_of(toks[1])->0, dec_val(toks[2]) as u16))
            }
        } else {
            LineResult::BadParse
        }
    } else if toks[0] == "function"@ || toks[0] == "call"@ {
        if toks.len() == 3 && is_digits(toks[2]) && dec_val(toks[2]) <= u8::MAX {
            if toks[0] == "function"@ {
                LineResult::Cmd(CommandView::Function(toks[1], dec_val(toks[2]) as u8))
            } else {
                LineResult::Cmd(CommandView::Call(toks[1], dec_val(toks[2]) as u8))
            }
        } else {
            LineResult::BadParse
        }
    } else if toks[0] == "label"@ || toks[0] == "goto"@ || toks[0] == "if-goto"@ {
        if toks.len() == 2 {
            if toks[0] == "label"@ {
                LineResult::Cmd(CommandView::Label(scope, toks[1]))
            } else if toks[0] == "goto"@ {
                LineResult::Cmd(CommandView::Goto(scope, toks[1]))
            } else {
                LineResult::Cmd(CommandView::If(scope, toks[1]))
            }
        } else {
            LineResult::BadParse
        }
    } else if toks[0] == "return"@ {
        if toks.len() == 1 {
            LineResult::Cmd(CommandView::Return)
        } else {
            LineResult::BadParse
        }
    } else {
        LineResult::Unknown
    }
}

enum LineClass {
    Empty,
    Cmd(CommandType),
    BadParse,
    Unknown,
}

/// Extracts the segment and index operands of a push or pop token list.
fn get_args(tokens: &Vec<String>) -> (r: Option<(MemorySegment, u16)>)
    requires
        tokens@.len() == 3,
    ensures
        match r {
            Some((seg, i)) => seg_of(tokens.deep_view()[1]) == Some(seg) && is_digits(
                tokens.deep_view()[2],
            ) && dec_val(tokens.deep_view()[2]) == i,
            None => seg_of(tokens.deep_view()[1]) is None || !is_digits(tokens.deep_view()[2])
                || dec_val(tokens.deep_view()[2]) > u16::MAX,
        },
{
    let seg = seg_of_token(tokens[1].as_str());
    match seg {
        Some(seg) => {
            match parse_u16(tokens[2].as_str()) {
                Some(i) => Some((seg, i)),
                None => None,
            }
        },
        None => None,
    }
}

/// Extracts the name and count operands of a function or call token list.
fn get_function_name_and_nvars(tokens: &Vec<String>) -> (r: Option<(String, u8)>)
    requires
        tokens@.len() == 3,
    ensures
        match r {
            Some((name, n)) => name@ == tokens.deep_view()[1] && is_digits(tokens.deep_view()[2])
                && dec_val(tokens.deep_view()[2]) == n,
            None => !is_digits(tokens.deep_view()[2]) || dec_val(tokens.deep_view()[2]) > u8::MAX,
        },
{
    match parse_u16(tokens[2].as_str()) {
        Some(i) => {
            if i <= 255 {
                Some((tokens[1].clone(), i as u8))
            } else {
                None
            }
        },
        None => None,
    }
}

/// Extracts the label operand of a label, goto or if-goto token list.
fn handle_label(tokens: &Vec<String>) -> (r: String)
    requires
        tokens@.len() == 2,
    ensures
        r@ == tokens.deep_view()[1],
{
    tokens[1].clone()
}

fn classify_line(line: &str, scope: &str) -> (r: LineClass)
    ensures
        match r {
            LineClass::Empty => line_command(line@, scope@) == LineResult::Empty,
            LineClass::Cmd(c) => line_command(line@, scope@) == LineResult::Cmd(c@),
            LineClass::BadParse => line_command(line@, scope@) == LineResult::BadParse,
            LineClass::Unknown => line_command(line@, scope@) == LineResult::Unknown,
        },
{
    let tokens = tokenize_line(line);
    if tokens.len() == 0 {
        return LineClass::Empty;
    }
    let t0 = tokens[0].as_str();
    if let Some(op) = arith_of_token(t0) {
        if tokens.len() == 1 {
            LineClass::Cmd(CommandType::Arithmetic(op))
        } else {
            LineClass::BadParse
        }
    } else if str_eq(t0, "push") {
        if tokens.len() == 3 {
            match get_args(&tokens) {
                Some((seg, i)) => LineClass::Cmd(CommandType::Push(seg, i)),
                None => LineClass::BadParse,
            }
        } else {
            LineClass::BadParse
        }
    } else if str_eq(t0, "pop") {
        if tokens.len() == 3 {
            match get_args(&tokens) {
                Some((seg, i)) => LineClass::Cmd(CommandType::Pop(seg, i)),
                None => LineClass::BadParse,
            }
        } else {
            LineClass::BadParse
        }
    } else if str_eq(t0, "function") {
        if tokens.len() == 3 {
            match get_function_name_and_nvars(&tokens) {
                Some((name, n)) => LineClass::Cmd(CommandType::Function(name, n)),
                None => LineClass::BadParse,
            }
        } else {
            LineClass::BadParse
        }
    } else if str_eq(t0, "call") {
        if tokens.len() == 3 {
            match get_function_name_and_nvars(&tokens) {
                Some((name, n)) => LineClass::Cmd(CommandType::Call(name, n)),
                None => LineClass::BadParse,
            }
        } else {
            LineClass::BadParse
        }
    } else if str_eq(t0, "label") {
        if tokens.len() == 2 {
            LineClass::Cmd(CommandType::Label(String::from_str(scope), handle_label(&tokens)))
        } else {
            LineClass::BadParse
        }
    } else if str_eq(t0, "goto") {
        if tokens.len() == 2 {
            LineClass::Cmd(CommandType::Goto(String::from_str(scope), handle_label(&tokens)))
        } else {
            LineClass::BadParse
        }
    } else if str_eq(t0, "if-goto") {
        if tokens.len() == 2 {
            LineClass::Cmd(CommandType::If(String::from_str(scope), handle_label(&tokens)))
        } else {
            LineClass::BadParse
        }
    } else if str_eq(t0, "return") {
        if tokens.len() == 1 {
            LineClass::Cmd(CommandType::Return)
        } else {
            LineClass::BadParse
        }
    } else {
        LineClass::Unknown
    }
}

/// The scope in force after a command: a function command opens its own
/// scope, every other command keeps the current one.
pub open spec fn scope_after(c: CommandView, scope: Seq<char>) -> Seq<char> {
    match c {
        CommandView::Function(name, _) => name,
        _ => scope,
    }
}

/// The commands of the lines of one module from line `li` on, inside scope
/// `scope`, or the first error.
pub open spec fn parse_lines_from(
    lines: Seq<Seq<char>>,
    li: nat,
    scope: Seq<char>,
    module: Seq<char>,
) -> Result<Seq<CommandView>, HVMErrorView>
    decreases lines.len() - li,
{
    if li >= lines.len() {
        Ok(Seq::empty())
    } else {
        match line_command(lines[li as int], scope) {
            LineResult::Empty => parse_lines_from(lines, li + 1, scope, module),
            LineResult::Cmd(c) => match parse_lines_from(
                lines,
                li + 1,
                scope_after(c, scope),
                module,
            ) {
                Ok(rest) => Ok(seq![c] + rest),
                Err(e) => Err(e),
            },
            LineResult::BadParse => Err(
                HVMErrorView::ParseError { module, line: lines[li as int] },
            ),
            LineResult::Unknown => Err(
                HVMErrorView::UnknownCommand { module, line: lines[li as int] },
            ),
        }
    }
}

/// The command stream of the modules from module `mi` on: one `NewFile`
/// marker per module, then its commands, with the scope reset at each
/// module boundary; or the first error.
pub open spec fn parse_modules_from(mods: Seq<ModuleView>, mi: nat) -> Result<
    Seq<CommandView>,
    HVMErrorView,
>
    decreases mods.len() - mi,
{
    if mi >= mods.len() {
        Ok(Seq::empty())
    } else {
        match parse_lines_from(mods[mi as int].lines, 0, Seq::empty(), mods[mi as int].name) {
            Ok(cs) => match parse_modules_from(mods, mi + 1) {
                Ok(rest) => Ok(seq![CommandView::NewFile(mods[mi as int].name)] + cs + rest),
                Err(e) => Err(e),
            },
            Err(e) => Err(e),
        }
    }
}

/// The command stream of an ordered list of source modules, or the first
/// error.
pub open spec fn spec_parse(mods: Seq<ModuleView>) -> Result<Seq<CommandView>, HVMErrorView> {
    parse_modules_from(mods, 0)
}

/// Parses the given ordered source modules into a command stream: one
/// `NewFile` marker per module before its commands, the current function
/// scope attached to every label, goto and if-goto, and the first
/// malformed or unknown line reported as a hard error.
pub fn parse_file(modules: &Vec<SourceModule>) -> (r: Result<Vec<CommandType>, HVMError>)
    ensures
        match r {
            Ok(cmds) => spec_parse(modules.deep_view()) == Ok::<_, HVMErrorView>(cmds.deep_view()),
            Err(e) => spec_parse(modules.deep_view()) == Err::<Seq<CommandView>, _>(e@),
        },
{
    let ghost mv = modules.deep_view();
    let mut commands: Vec<CommandType> = Vec::new();
    let mut mi: usize = 0;
    proof {
        assert(commands.deep_view() =~= Seq::<CommandView>::empty());
    }
    while mi < modules.len()
        invariant
            mi <= modules@.len(),
            mv == modules.deep_view(),
            mv.len() == modules@.len(),
            forall|k: int| 0 <= k < mv.len() ==> mv[k] == #[trigger] modules@[k].deep_view(),
            parse_modules_from(mv, 0) == (match parse_modules_from(mv, mi as nat) {
                Ok(rest) => Ok::<_, HVMErrorView>(commands.deep_view() + rest),
                Err(e) => Err::<Seq<CommandView>, _>(e),
            }),
        decreases modules@.len() - mi,
    {
        let module = &modules[mi];
        let ghost lv = module.lines.deep_view();
        let ghost mname = module.name@;
        proof {
            assert(mv[mi as int] == modules@[mi as int].deep_view());
            assert(mv[mi as int].lines == lv);
            assert(mv[mi as int].name == mname);
        }
        let mut func_name = String::new();
        let ghost pre = commands.deep_view();
        commands.push(CommandType::NewFile(module.name.clone()));
        proof {
            assert(commands.deep_view() =~= pre.push(CommandView::NewFile(mname)));
            // One unfolding of the module recursion, and reassociation of
            // the accumulated commands with the module's own commands.
            let a = parse_lines_from(lv, 0, Seq::empty(), mname);
            let b = parse_modules_from(mv, (mi + 1) as nat);
            assert(func_name@ =~= Seq::<char>::empty());
            if a is Ok && b is Ok {
                assert(pre + (seq![CommandView::NewFile(mname)] + a->Ok_0 + b->Ok_0) =~= pre.push(
                    CommandView::NewFile(mname),
                ) + a->Ok_0 + b->Ok_0);
            }
        }
        let mut li: usize = 0;
        while li < module.lines.len()
            invariant
                li <= module.lines@.len(),
                lv == module.lines.deep_view(),
                lv.len() == module.lines@.len(),
                forall|k: int| 0 <= k < lv.len() ==> lv[k] == #[trigger] module.lines@[k]@,
                mname == module.name@,
                mv == modules.deep_view(),
                parse_modules_from(mv, 0) == (match parse_lines_from(
                    lv,
                    li as nat,
                    func_name@,
                    mname,
                ) {
                    Ok(cs) => match parse_modules_from(mv, (mi + 1) as nat) {
                        Ok(rest) => Ok::<_, HVMErrorView>(commands.deep_view() + cs + rest),
                        Err(e) => Err::<Seq<CommandView>, _>(e),
                    },
                    Err(e) => Err::<Seq<CommandView>, _>(e),
                }),
            decreases module.lines@.len() - li,
        {
            let line = &module.lines[li];
            proof {
                assert(lv[li as int] == module.lines@[li as int]@);
            }
            match classify_line(line.as_str(), func_name.as_str()) {
                LineClass::Empty => {},
                LineClass::Cmd(c) => {
                    let ghost scope0 = func_name@;
                    if let CommandType::Function(name, _) = &c {
                        func_name = name.clone();
                    }
                    let ghost pre = commands.deep_view();
                    let ghost cv = c@;
                    commands.push(c);
                    proof {
                        assert(commands.deep_view() =~= pre.push(cv));
                        assert(func_name@ == scope_after(cv, scope0));
                        let a = parse_lines_from(lv, (li + 1) as nat, func_name@, mname);
                        let b = parse_modules_from(mv, (mi + 1) as nat);
                        if a is Ok && b is Ok {
                            assert(pre + (seq![cv] + a->Ok_0) + b->Ok_0 =~= pre.push(cv) + a->Ok_0
                                + b->Ok_0);
                        }
                    }
                },
                LineClass::BadParse => {
                    return Err(
                        HVMError::ParseError { module: module.name.clone(), line: line.clone() },
                    );
                },
                LineClass::Unknown => {
                    return Err(
                        HVMError::UnknownCommand {
                            module: module.name.clone(),
                            line: line.clone(),
                        },
                    );
                },
            }
            li += 1;
        }
        proof {
            // The module is exhausted: its tail parse is the empty stream.
            let b = parse_modules_from(mv, (mi + 1) as nat);
            if b is Ok {
                assert(commands.deep_view() + Seq::<CommandView>::empty() + b->Ok_0
                    =~= commands.deep_view() + b->Ok_0);
            }
        }
        mi += 1;
    }
    proof {
        assert(commands.deep_view() + Seq::<CommandView>::empty() =~= commands.deep_view());
    }
    Ok(commands)
}

} // verus!
