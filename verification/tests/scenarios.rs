use std::collections::HashMap;

use spp::ast::BinOp;
use spp::compiler::compile;
use spp::error::CompileError;
use spp::float::{FloatAnswer, FloatQuery, FloatTable, FloatValue};

fn answer(query: &FloatQuery) -> FloatAnswer {
    fn value(f: f64) -> FloatAnswer {
        FloatAnswer::Value(FloatValue {
            bits: f.to_bits(),
            text: f.to_string(),
            scaled: (f * 100.0) as i64,
        })
    }
    match query {
        FloatQuery::Literal(text) => value(text.parse::<f64>().unwrap()),
        FloatQuery::FromInt(n) => value(*n as f64),
        FloatQuery::Arith(op, a, b) => {
            let (x, y) = (f64::from_bits(*a), f64::from_bits(*b));
            value(match op {
                BinOp::Add => x + y,
                BinOp::Sub => x - y,
                BinOp::Mul => x * y,
                _ => x / y,
            })
        }
        FloatQuery::Compare(op, a, b) => {
            let (x, y) = (f64::from_bits(*a), f64::from_bits(*b));
            FloatAnswer::Truth(match op {
                BinOp::Equal => x == y,
                BinOp::NotEqual => x != y,
                BinOp::Lt => x < y,
                BinOp::Gt => x > y,
                BinOp::Lte => x <= y,
                _ => x >= y,
            })
        }
    }
}

fn build(source: &str) -> Result<String, CompileError> {
    let mut floats = FloatTable::new();
    loop {
        match compile(source, &floats) {
            Err(CompileError::FloatPending(query)) => {
                let a = answer(&query);
                floats.record(query, a);
            }
            other => return other,
        }
    }
}

/// A value in a register, a cell or on the stack: a number, or an address
/// inside a named block of bytes.
#[derive(Clone, Debug, PartialEq)]
enum Value {
    Int(i64),
    Addr(String, usize),
}

/// What a run of a document leaves behind.
#[derive(Debug, PartialEq)]
struct Run {
    output: String,
    status: Option<i64>,
}

/// A machine for the instructions that follow the entry symbol. The helper
/// routines are built in; everything else is read from the document.
struct Machine {
    blocks: HashMap<String, Vec<u8>>,
    cells: HashMap<String, Value>,
    regs: HashMap<String, Value>,
    stack: Vec<Value>,
    zero: bool,
    less: bool,
    output: Vec<u8>,
}

fn parse_data(document: &str) -> HashMap<String, Vec<u8>> {
    let start = document.find("section .data\n").unwrap();
    let end = document.find("\nsection .bss\n").unwrap();
    let mut blocks = HashMap::new();
    let mut rest = &document[start + "section .data\n".len()..end];
    while !rest.is_empty() {
        let at = rest.find(" db \"").unwrap();
        let label = rest[..at].to_string();
        let body_start = at + " db \"".len();
        let with_break = rest[body_start..].find("\", 10, 0\n");
        let without = rest[body_start..].find("\", 0\n");
        let (body_end, tail, line_break) = match (with_break, without) {
            (Some(a), Some(b)) if a < b => (a, "\", 10, 0\n".len(), true),
            (Some(a), None) => (a, "\", 10, 0\n".len(), true),
            (_, Some(b)) => (b, "\", 0\n".len(), false),
            (None, None) => panic!("malformed blob {:?}", rest),
        };
        let mut bytes = rest[body_start..body_start + body_end].as_bytes().to_vec();
        if line_break {
            bytes.push(10);
        }
        bytes.push(0);
        blocks.insert(label, bytes);
        rest = &rest[body_start + body_end + tail..];
    }
    blocks
}

fn parse_cells(document: &str) -> Vec<String> {
    let start = document.find("\nsection .bss\n").unwrap();
    let end = document.find("\nsection .text\n").unwrap();
    document[start..end]
        .lines()
        .filter(|l| l.contains(": resq 1"))
        .map(|l| l[..l.find(':').unwrap()].to_string())
        .collect()
}

impl Machine {
    fn new(document: &str) -> Machine {
        let mut blocks = parse_data(document);
        blocks.insert("str_buffer".to_string(), vec![0; 1024]);
        let mut cells = HashMap::new();
        for cell in parse_cells(document) {
            cells.insert(cell, Value::Int(0));
        }
        Machine {
            blocks,
            cells,
            regs: HashMap::new(),
            stack: Vec::new(),
            zero: false,
            less: false,
            output: Vec::new(),
        }
    }

    fn reg(&self, name: &str) -> Value {
        self.regs.get(name).cloned().unwrap_or(Value::Int(0))
    }

    fn number(&self, name: &str) -> i64 {
        match self.reg(name) {
            Value::Int(n) => n,
            other => panic!("{} holds {:?}, not a number", name, other),
        }
    }

    fn set(&mut self, name: &str, value: Value) {
        self.regs.insert(name.to_string(), value);
    }

    fn is_reg(name: &str) -> bool {
        matches!(name, "rax" | "rbx" | "rcx" | "rdx" | "rdi" | "rsi")
    }

    fn operand(&self, text: &str) -> Value {
        if Machine::is_reg(text) {
            self.reg(text)
        } else if let Ok(n) = text.parse::<i64>() {
            Value::Int(n)
        } else if text.starts_with('[') && text.ends_with(']') {
            let cell = &text[1..text.len() - 1];
            match self.cells.get(cell) {
                Some(v) => v.clone(),
                None => panic!("no cell {}", cell),
            }
        } else if self.blocks.contains_key(text) {
            Value::Addr(text.to_string(), 0)
        } else {
            panic!("unknown operand {}", text)
        }
    }

    fn append(&mut self, bytes: &[u8]) {
        let (block, mut at) = match self.reg("rdi") {
            Value::Addr(block, at) => (block, at),
            other => panic!("rdi holds {:?}", other),
        };
        for b in bytes {
            self.blocks.get_mut(&block).unwrap()[at] = *b;
            at += 1;
        }
        self.set("rdi", Value::Addr(block, at));
        let count = self.number("rcx") + bytes.len() as i64;
        self.set("rcx", Value::Int(count));
    }

    fn call(&mut self, routine: &str) {
        match routine {
            "append_string_without_newline" => {
                let bytes: Vec<u8> = match self.reg("rsi") {
                    Value::Addr(block, at) => self.blocks[&block][at..]
                        .iter()
                        .take_while(|b| **b != 0)
                        .filter(|b| **b != 10)
                        .cloned()
                        .collect(),
                    other => panic!("rsi holds {:?}", other),
                };
                self.append(&bytes);
            }
            "append_number" => {
                let text = self.number("rax").to_string();
                self.append(text.as_bytes());
            }
            "print_number" => {
                let n = match self.stack.pop() {
                    Some(Value::Int(n)) => n,
                    other => panic!("print_number got {:?}", other),
                };
                self.output.extend(format!("{}\n", n.unsigned_abs()).as_bytes());
            }
            other => panic!("unknown routine {}", other),
        }
    }

    fn run(document: &str) -> Run {
        let mut machine = Machine::new(document);
        let start = document.find("\n_start:\n").unwrap() + "\n_start:\n".len();
        let lines: Vec<String> = document[start..]
            .lines()
            .map(|l| match l.find(';') {
                Some(at) => l[..at].trim().to_string(),
                None => l.trim().to_string(),
            })
            .collect();
        let mut labels = HashMap::new();
        for (i, line) in lines.iter().enumerate() {
            if let Some(label) = line.strip_suffix(':') {
                assert!(labels.insert(label.to_string(), i).is_none(), "label {} twice", label);
            }
        }
        let mut pc = 0;
        let mut steps = 0;
        while pc < lines.len() {
            steps += 1;
            assert!(steps < 100000, "the program does not end");
            let line = lines[pc].clone();
            pc += 1;
            if line.is_empty() || line.ends_with(':') {
                continue;
            }
            let (op, args) = match line.find(' ') {
                Some(at) => (&line[..at], line[at + 1..].trim()),
                None => (&line[..], ""),
            };
            let parts: Vec<&str> = args.splitn(2, ',').map(|p| p.trim()).collect();
            match op {
                "mov" if parts[0].starts_with("qword [") => {
                    let cell = &parts[0]["qword [".len()..parts[0].len() - 1];
                    assert!(machine.cells.contains_key(cell), "no cell {}", cell);
                    let value = machine.operand(parts[1]);
                    machine.cells.insert(cell.to_string(), value);
                }
                "mov" if parts[0] == "byte [rdi]" => {
                    let byte = parts[1].parse::<u8>().unwrap();
                    match machine.reg("rdi") {
                        Value::Addr(block, at) => machine.blocks.get_mut(&block).unwrap()[at] = byte,
                        other => panic!("rdi holds {:?}", other),
                    }
                }
                "mov" => {
                    let value = machine.operand(parts[1]);
                    machine.set(parts[0], value);
                }
                "xor" => machine.set(parts[0], Value::Int(0)),
                "inc" => match machine.reg(parts[0]) {
                    Value::Int(n) => machine.set(parts[0], Value::Int(n + 1)),
                    Value::Addr(block, at) => machine.set(parts[0], Value::Addr(block, at + 1)),
                },
                "cld" => {}
                "rep" => {
                    machine.blocks.insert("str_buffer".to_string(), vec![0; 1024]);
                }
                "push" => {
                    let value = machine.reg(parts[0]);
                    machine.stack.push(value);
                }
                "pop" => {
                    let value = machine.stack.pop().expect("pop from an empty stack");
                    machine.set(parts[0], value);
                }
                "add" if parts[0] == "rsp" => {
                    machine.stack.pop();
                }
                "add" => {
                    let n = machine.number(parts[0]).wrapping_add(machine.number(parts[1]));
                    machine.set(parts[0], Value::Int(n));
                }
                "sub" => {
                    let n = machine.number(parts[0]).wrapping_sub(machine.number(parts[1]));
                    machine.set(parts[0], Value::Int(n));
                }
                "imul" => {
                    let n = machine.number(parts[0]).wrapping_mul(machine.number(parts[1]));
                    machine.set(parts[0], Value::Int(n));
                }
                "div" => {
                    let (a, b) = (machine.number("rax") as u64, machine.number(parts[0]) as u64);
                    machine.set("rax", Value::Int((a / b) as i64));
                    machine.set("rdx", Value::Int((a % b) as i64));
                }
                "cmp" => {
                    let a = machine.number(parts[0]);
                    let b = match machine.operand(parts[1]) {
                        Value::Int(n) => n,
                        other => panic!("cmp with {:?}", other),
                    };
                    machine.zero = a == b;
                    machine.less = a < b;
                }
                "test" => {
                    machine.zero = machine.number(parts[0]) == 0;
                }
                "sete" | "setne" | "setl" | "setg" | "setle" | "setge" => {
                    let bit = match op {
                        "sete" => machine.zero,
                        "setne" => !machine.zero,
                        "setl" => machine.less,
                        "setg" => !machine.less && !machine.zero,
                        "setle" => machine.less || machine.zero,
                        _ => !machine.less,
                    };
                    let n = (machine.number("rax") & !0xff) | bit as i64;
                    machine.set("rax", Value::Int(n));
                }
                "movzx" => {
                    let n = machine.number("rax") & 0xff;
                    machine.set("rax", Value::Int(n));
                }
                "jz" | "je" => {
                    if machine.zero {
                        pc = labels[parts[0]];
                    }
                }
                "jmp" => pc = labels[parts[0]],
                "call" => machine.call(parts[0]),
                "syscall" => match machine.number("rax") {
                    1 => {
                        let count = machine.number("rdx") as usize;
                        match machine.reg("rsi") {
                            Value::Addr(block, at) => {
                                let bytes = machine.blocks[&block][at..at + count].to_vec();
                                machine.output.extend(bytes);
                            }
                            other => panic!("rsi holds {:?}", other),
                        }
                    }
                    60 => {
                        let status = machine.number("rdi");
                        return Run {
                            output: String::from_utf8(machine.output).unwrap(),
                            status: Some(status),
                        };
                    }
                    other => panic!("system call {}", other),
                },
                other => panic!("unknown instruction {} in {:?}", other, line),
            }
        }
        Run { output: String::from_utf8(machine.output).unwrap(), status: None }
    }
}

fn run(source: &str) -> Run {
    Machine::run(&build(source).unwrap())
}

fn printed(source: &str) -> String {
    run(source).output
}

fn status(source: &str) -> Option<i64> {
    run(source).status
}

#[test]
fn string_joined_with_a_number_prints_both() {
    assert_eq!(printed("console.print(\"n=\" + 5);"), "n=5\n");
}

#[test]
fn folded_comparison_prints_as_a_word() {
    assert_eq!(printed("const t = 1 == 1; console.print(t);"), "true\n");
    assert_eq!(printed("const t = 1 == 2; console.print(t);"), "false\n");
    assert_eq!(printed("console.print('' + (1 == 1));"), "1\n");
}

#[test]
fn comparison_printed_directly_is_numeric() {
    assert_eq!(printed("console.print(1 == 1);"), "1\n");
    assert_eq!(printed("console.print(1 == 2);"), "0\n");
}

#[test]
fn array_prints_with_brackets_and_separators() {
    assert_eq!(printed("console.print([1, \"a\", true]);"), "[1, a, true]\n");
}

#[test]
fn arrays_of_other_sizes() {
    assert_eq!(printed("console.print([]);"), "[]\n");
    assert_eq!(printed("console.print([null]);"), "[null]\n");
    assert_eq!(printed("console.print([false, 'x y', 10, null]);"), "[false, x y, 10, null]\n");
}

#[test]
fn array_of_names() {
    assert_eq!(
        printed("const n = 12; let s = 'ab'; const b = false; let m = 7; console.print([n, s, b, m]);"),
        "[12, ab, false, 7]\n"
    );
}

#[test]
fn array_elements_of_every_kind() {
    assert_eq!(
        printed("console.print([1, [2, [true, 'x']], 1.50, [], 1 + 2 * 3, 'a' + 1, null]);"),
        "[1, [2, [true, x]], 1.5, [], 7, a1, null]\n"
    );
}

#[test]
fn array_of_names_of_every_kind() {
    assert_eq!(
        printed("const a = 5; const b = 'x'; const c = true; const d = null; const e = [1]; const f = 1.5;\nconsole.print([a, b, c, d, e, f]);"),
        "[5, x, true, null, [Array], 1.5]\n"
    );
    assert_eq!(
        printed("let a = 5; let b = 'x'; let c = false; let d = null; let e = [1]; let f = 1.5;\nconsole.print([a, b, c, d, e, f]);"),
        "[5, x, false, null, [Array], 1.5]\n"
    );
}

#[test]
fn array_elements_read_variables_at_run_time() {
    assert_eq!(
        printed("let s = 'ab'; let n = 1; let b = true; console.print([s, n, b]); s = 'xyz'; n = 22; b = false; console.print([s, n, b]);"),
        "[ab, 1, true]\n[xyz, 22, false]\n"
    );
}

#[test]
fn array_variable_prints_after_it_was_assigned() {
    assert_eq!(
        printed("let v = 1; v = [1, 2]; console.print(v); console.print('v=' + v); console.print([v]);"),
        "[Array]\nv=[Array]\n[[Array]]\n"
    );
}

#[test]
fn conditional_takes_the_first_branch_when_the_condition_holds() {
    assert_eq!(status("if (1 < 2) { exit(1); } else { exit(2); }"), Some(1));
}

#[test]
fn conditional_takes_the_second_branch_when_the_condition_fails() {
    assert_eq!(status("if (1 > 2) { exit(1); } else { exit(2); }"), Some(2));
}

#[test]
fn conditional_without_else_falls_through() {
    assert_eq!(status("if (1 > 2) { exit(1); } exit(3);"), Some(3));
    assert_eq!(status("if (2 > 1) { exit(1); } exit(3);"), Some(1));
}

#[test]
fn nested_conditionals() {
    let program = |a: i32, b: i32| {
        format!(
            "if ({} == 1) {{ if ({} == 1) {{ exit(11); }} else {{ exit(10); }} }} else {{ if ({} == 1) {{ exit(1); }} }} exit(0);",
            a, b, b
        )
    };
    assert_eq!(status(&program(1, 1)), Some(11));
    assert_eq!(status(&program(1, 0)), Some(10));
    assert_eq!(status(&program(0, 1)), Some(1));
    assert_eq!(status(&program(0, 0)), Some(0));
}

#[test]
fn conditional_on_a_variable() {
    assert_eq!(status("let x = 0; if (x) { exit(1); } else { exit(2); }"), Some(2));
    assert_eq!(status("let x = 5; if (x) { exit(1); } else { exit(2); }"), Some(1));
    assert_eq!(status("let x = 5; x = 0; if (x) { exit(1); } else { exit(2); }"), Some(2));
    assert_eq!(status("let b = true; if (b) { exit(1); } else { exit(2); }"), Some(1));
}

#[test]
fn every_comparison_at_run_time() {
    for (a, b) in [(1, 2), (2, 1), (2, 2)] {
        let cases = [
            ("==", a == b),
            ("!=", a != b),
            ("<", a < b),
            (">", a > b),
            ("<=", a <= b),
            (">=", a >= b),
        ];
        for (op, holds) in cases {
            let source = format!("if ({} {} {}) {{ exit(1); }} exit(0);", a, op, b);
            assert_eq!(status(&source), Some(holds as i64), "{}", source);
        }
    }
}

#[test]
fn program_without_exit_ends_with_status_zero() {
    assert_eq!(run("console.print('x');"), Run { output: "x\n".to_string(), status: Some(0) });
    assert_eq!(run(""), Run { output: String::new(), status: Some(0) });
}

#[test]
fn exit_with_a_name_or_an_expression() {
    assert_eq!(status("const c = 7; exit(c);"), Some(7));
    assert_eq!(status("let v = 8; exit(v);"), Some(8));
    assert_eq!(status("let v = 8; v = 9; exit(v);"), Some(9));
    assert_eq!(status("const t = true; exit(t);"), Some(1));
    assert_eq!(status("const s = 'x'; exit(s);"), Some(0));
    assert_eq!(status("exit(2 + 3 * 4);"), Some(14));
    assert_eq!(status("let v = 8; exit(v - 3);"), Some(5));
}

#[test]
fn statements_behind_an_exit_do_not_run() {
    assert_eq!(
        run("console.print('a'); exit(4); console.print('b');"),
        Run { output: "a\n".to_string(), status: Some(4) }
    );
}

#[test]
fn literals_print_on_lines_of_their_own() {
    assert_eq!(
        printed("console.print('hi'); console.print(42); console.print(true); console.print(false); console.print(null); console.print(2.50);"),
        "hi\n42\ntrue\nfalse\nnull\n2.5\n"
    );
}

#[test]
fn names_print_their_values() {
    assert_eq!(
        printed("const a = 5; const b = 'x'; const c = true; const d = null; const e = [1]; const f = 1.5;\nconsole.print(a); console.print(b); console.print(c); console.print(d); console.print(e); console.print(f);"),
        "5\nx\ntrue\nnull\n[Array]\n1.5\n"
    );
    assert_eq!(
        printed("let a = 5; let b = 'x'; let c = false; let d = null; let e = [1]; let f = 1.5;\nconsole.print(a); console.print(b); console.print(c); console.print(d); console.print(e); console.print(f);"),
        "5\nx\nfalse\nnull\n[Array]\n1.5\n"
    );
}

#[test]
fn reassigned_variable_prints_its_latest_value() {
    assert_eq!(
        printed("let v = 1; console.print(v); v = 2; console.print(v); v = 'two'; console.print(v); v = 'three'; console.print(v);"),
        "1\n2\ntwo\nthree\n"
    );
}

#[test]
fn variable_that_becomes_a_float_prints_its_text() {
    assert_eq!(
        printed("let v = 1; v = 2.5; console.print(v); v = 'x'; console.print(v); v = 0.5; console.print('v=' + v); console.print([v]);"),
        "2.5\nx\nv=0.5\n[0.5]\n"
    );
}

#[test]
fn earlier_blobs_stay_addressable_after_reassignment() {
    let document = build("let v = 'one'; v = 'two'; v = 'three';").unwrap();
    assert!(document.contains("var_v db \"one\", 10, 0\n"));
    assert!(document.contains("var_v_updated_3 db \"two\", 10, 0\n"));
    assert!(document.contains("var_v_updated_4 db \"three\", 10, 0\n"));
}

#[test]
fn concatenation_of_many_parts() {
    assert_eq!(
        printed("let n = 3; const s = 'items'; console.print('have ' + n + ' ' + s + ': ' + true + ', ' + null + ', ' + (n * 2 + 1));"),
        "have 3 items: true, null, 7\n"
    );
}

#[test]
fn concatenation_reads_variables_at_run_time() {
    assert_eq!(
        printed("let b = true; let n = 1; console.print('b=' + b + ' n=' + n); b = false; n = 2; console.print('b=' + b + ' n=' + n);"),
        "b=true n=1\nb=false n=2\n"
    );
}

#[test]
fn numeric_expressions_agree_with_folding() {
    let cases = [
        ("1 + 2 * 3", 7),
        ("(1 + 2) * 3", 9),
        ("10 - 4 - 3", 3),
        ("100 / 5 / 2", 10),
        ("7 / 2", 3),
        ("2 * 3 + 4 * 5", 26),
        ("(2 < 3) + (3 < 2)", 1),
    ];
    for (expr, value) in cases {
        assert_eq!(printed(&format!("console.print({});", expr)), format!("{}\n", value), "{}", expr);
        if !expr.contains('<') {
            assert_eq!(
                printed(&format!("const c = {}; console.print(c);", expr)),
                format!("{}\n", value),
                "{}",
                expr
            );
        }
    }
}

#[test]
fn subtraction_and_division_keep_their_operand_order() {
    assert_eq!(printed("console.print(9 - 2);"), "7\n");
    assert_eq!(printed("console.print(9 / 2);"), "4\n");
    assert_eq!(printed("let a = 9; let b = 2; console.print(a - b); console.print(a / b);"), "7\n4\n");
}

#[test]
fn every_label_is_defined_once() {
    let document = build(
        "let a = 'x'; a = 'y'; a = 'z'; console.print(1); console.print([2, 3, a]); console.print('s' + 1.5);\nif (1) { if (2) { console.print(4); } else { } } else { if (3) { } }\nif (1) { console.print(5); }\nlet b = true; console.print(b); console.print('' + b + b); if (b) { console.print(b); }",
    )
    .unwrap();
    let mut seen = std::collections::HashSet::new();
    let entry = document.find("\n_start:\n").unwrap();
    let routines = document.find("\nsection .text\n").unwrap();
    let own = format!("{}{}", &document[..routines], &document[entry..]);
    for line in own.lines() {
        let label = if let Some(at) = line.find(" db \"") {
            Some(&line[..at])
        } else if line.ends_with(':') && !line.starts_with(' ') {
            Some(&line[..line.len() - 1])
        } else if let Some(at) = line.find(": res") {
            Some(&line[..at])
        } else {
            None
        };
        if let Some(label) = label {
            assert!(seen.insert(label.to_string()), "label {} is defined twice", label);
        }
    }
    assert!(seen.iter().any(|l| l.starts_with("if_end_")));
    assert!(seen.iter().any(|l| l.starts_with(".false_b_")));
}
