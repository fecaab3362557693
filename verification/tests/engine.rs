use picovm::opcodes::{AccessId, ClosureId, Opcode, PatternId, Pointer, Readable, SpanId, StringId, Writable};
use picovm::ops::EvalErrorKind;
use picovm::value::{Tag, Value};
use picovm::vm::{
    new_regs, run, Access, Closure, DictPatEntry, Param, PatItem, Pattern, Program, Vm, VmError,
};

fn program(instructions: Vec<Opcode>, spans: Vec<u64>, constants: Vec<Value>) -> Program {
    Program {
        instructions,
        spans,
        constants,
        strings: vec![],
        span_pool: vec![],
        labels: vec![],
        accesses: vec![],
        patterns: vec![],
        closures: vec![],
        modules: vec![],
        includes: vec![],
    }
}

#[test]
fn add_of_ints_writes_the_sum() {
    let prog = program(
        vec![Opcode::Add {
            lhs: Readable::Const(0),
            rhs: Readable::Const(1),
            out: Writable::Reg(0),
        }],
        vec![7],
        vec![Value::Int(1), Value::Int(2)],
    );
    let mut regs = new_regs(1);
    let mut vm = Vm::new(100);
    let r = run(&prog, &mut regs, &mut vm, false, 8);
    assert!(r.is_ok());
    assert_eq!(regs[0], Value::Int(3));
}

#[test]
fn add_type_mismatch_is_an_error_at_the_instruction_span() {
    let prog = program(
        vec![Opcode::Add {
            lhs: Readable::Const(0),
            rhs: Readable::Const(1),
            out: Writable::Reg(0),
        }],
        vec![42],
        vec![Value::Str(String::from("a")), Value::Int(2)],
    );
    let mut regs = new_regs(1);
    let mut vm = Vm::new(100);
    let r = run(&prog, &mut regs, &mut vm, false, 8);
    assert_eq!(
        r,
        Err(VmError::Eval { kind: EvalErrorKind::TypeMismatch, span: 42 })
    );
    assert_eq!(regs[0], Value::Nothing);
}

#[test]
fn division_by_zero_is_reported() {
    let prog = program(
        vec![Opcode::Div {
            lhs: Readable::Const(0),
            rhs: Readable::Const(1),
            out: Writable::Reg(0),
        }],
        vec![11],
        vec![Value::Int(1), Value::Int(0)],
    );
    let mut regs = new_regs(1);
    let mut vm = Vm::new(100);
    let r = run(&prog, &mut regs, &mut vm, false, 8);
    assert_eq!(
        r,
        Err(VmError::Eval { kind: EvalErrorKind::DivisionByZero, span: 11 })
    );
}

#[test]
fn string_concat_and_comparison() {
    let prog = program(
        vec![
            Opcode::Add {
                lhs: Readable::Const(0),
                rhs: Readable::Const(1),
                out: Writable::Reg(0),
            },
            Opcode::Lt {
                lhs: Readable::Const(2),
                rhs: Readable::Const(3),
                out: Writable::Reg(1),
            },
        ],
        vec![1, 2],
        vec![
            Value::Str(String::from("ab")),
            Value::Str(String::from("cd")),
            Value::Int(3),
            Value::Int(5),
        ],
    );
    let mut regs = new_regs(2);
    let mut vm = Vm::new(100);
    let r = run(&prog, &mut regs, &mut vm, false, 8);
    assert!(r.is_ok());
    assert_eq!(regs[0], Value::Str(String::from("abcd")));
    assert_eq!(regs[1], Value::Bool(true));
}

#[test]
fn membership_in_array_and_dict() {
    let prog = program(
        vec![
            Opcode::In {
                lhs: Readable::Const(0),
                rhs: Readable::Const(1),
                out: Writable::Reg(0),
            },
            Opcode::NotIn {
                lhs: Readable::Const(2),
                rhs: Readable::Const(1),
                out: Writable::Reg(1),
            },
        ],
        vec![1, 2],
        vec![
            Value::Int(2),
            Value::Array(vec![Value::Int(1), Value::Int(2)]),
            Value::Int(9),
        ],
    );
    let mut regs = new_regs(2);
    let mut vm = Vm::new(100);
    let r = run(&prog, &mut regs, &mut vm, false, 8);
    assert!(r.is_ok());
    assert_eq!(regs[0], Value::Bool(true));
    assert_eq!(regs[1], Value::Bool(true));
}

#[test]
fn content_loop_folds_in_order_when_broken_partway() {
    // An iterator loop copies each element into the joining buffer and
    // breaks after seeing "B": the third element is never consumed and
    // the scope still yields the joined content of the first two.
    let prog = program(
        vec![
            Opcode::Iter {
                len: 5,
                iterable: Readable::Const(0),
                content: true,
                out: Writable::Reg(0),
            },
            Opcode::Next { out: Writable::Reg(1) },
            Opcode::CopyIsr { value: Readable::Reg(1), out: Writable::Joined },
            Opcode::Eq {
                lhs: Readable::Reg(1),
                rhs: Readable::Const(1),
                out: Writable::Reg(2),
            },
            Opcode::JumpIfNot { condition: Readable::Reg(2), instruction: Pointer(0) },
            Opcode::Break,
        ],
        vec![1, 2, 3, 4, 5, 6],
        vec![
            Value::Array(vec![
                Value::Str(String::from("A")),
                Value::Str(String::from("B")),
                Value::Str(String::from("C")),
            ]),
            Value::Str(String::from("B")),
        ],
    );
    let mut regs = new_regs(3);
    let mut vm = Vm::new(100);
    let r = run(&prog, &mut regs, &mut vm, false, 8);
    assert!(r.is_ok());
    assert_eq!(
        regs[0],
        Value::Elem(
            Tag::Joined,
            vec![Value::Str(String::from("A")), Value::Str(String::from("B"))],
        )
    );
}

#[test]
fn next_on_exhausted_iterator_exits_without_write_or_error() {
    let prog = program(
        vec![
            Opcode::Iter {
                len: 2,
                iterable: Readable::Const(0),
                content: true,
                out: Writable::Reg(0),
            },
            Opcode::Next { out: Writable::Reg(1) },
            Opcode::CopyIsr { value: Readable::Reg(1), out: Writable::Joined },
        ],
        vec![1, 2, 3],
        vec![Value::Array(vec![])],
    );
    let mut regs = new_regs(2);
    let mut vm = Vm::new(100);
    let r = run(&prog, &mut regs, &mut vm, false, 8);
    assert!(r.is_ok());
    assert_eq!(regs[0], Value::Elem(Tag::Joined, vec![]));
    assert_eq!(regs[1], Value::Nothing);
}

#[test]
fn destructure_arity_mismatch_binds_nothing() {
    let mut prog = program(
        vec![Opcode::Destructure { value: Readable::Const(0), out: PatternId(0) }],
        vec![9],
        vec![Value::Array(vec![Value::Int(1)])],
    );
    prog.accesses = vec![
        Access { root: 0, segments: vec![] },
        Access { root: 1, segments: vec![] },
    ];
    prog.patterns = vec![Pattern::Array(vec![
        PatItem::Bind(AccessId(0)),
        PatItem::Bind(AccessId(1)),
    ])];
    let mut regs = new_regs(2);
    let mut vm = Vm::new(100);
    let r = run(&prog, &mut regs, &mut vm, false, 8);
    assert_eq!(
        r,
        Err(VmError::Eval { kind: EvalErrorKind::DestructureMismatch, span: 9 })
    );
    assert_eq!(regs[0], Value::Nothing);
    assert_eq!(regs[1], Value::Nothing);
}

#[test]
fn destructure_of_matching_array_binds_each_element() {
    let mut prog = program(
        vec![Opcode::Destructure { value: Readable::Const(0), out: PatternId(0) }],
        vec![9],
        vec![Value::Array(vec![Value::Int(1), Value::Int(2)])],
    );
    prog.accesses = vec![
        Access { root: 0, segments: vec![] },
        Access { root: 1, segments: vec![] },
    ];
    prog.patterns = vec![Pattern::Array(vec![
        PatItem::Bind(AccessId(0)),
        PatItem::Bind(AccessId(1)),
    ])];
    let mut regs = new_regs(2);
    let mut vm = Vm::new(100);
    let r = run(&prog, &mut regs, &mut vm, false, 8);
    assert!(r.is_ok());
    assert_eq!(regs[0], Value::Int(1));
    assert_eq!(regs[1], Value::Int(2));
}

#[test]
fn destructure_with_rest_captures_the_middle() {
    let mut prog = program(
        vec![Opcode::Destructure { value: Readable::Const(0), out: PatternId(0) }],
        vec![9],
        vec![Value::Array(vec![
            Value::Int(1),
            Value::Int(2),
            Value::Int(3),
            Value::Int(4),
        ])],
    );
    prog.accesses = vec![
        Access { root: 0, segments: vec![] },
        Access { root: 1, segments: vec![] },
        Access { root: 2, segments: vec![] },
    ];
    prog.patterns = vec![Pattern::Array(vec![
        PatItem::Bind(AccessId(0)),
        PatItem::Rest(Some(AccessId(1))),
        PatItem::Bind(AccessId(2)),
    ])];
    let mut regs = new_regs(3);
    let mut vm = Vm::new(100);
    let r = run(&prog, &mut regs, &mut vm, false, 8);
    assert!(r.is_ok());
    assert_eq!(regs[0], Value::Int(1));
    assert_eq!(regs[1], Value::Array(vec![Value::Int(2), Value::Int(3)]));
    assert_eq!(regs[2], Value::Int(4));
}

#[test]
fn spread_of_array_in_array_context_inserts_elementwise() {
    let prog = program(
        vec![
            Opcode::AllocArray { capacity: 4, out: Writable::Reg(0) },
            Opcode::Push { value: Readable::Const(0), out: Writable::Reg(0) },
            Opcode::Spread { value: Readable::Const(1), out: Writable::Reg(0) },
        ],
        vec![1, 2, 3],
        vec![
            Value::Int(1),
            Value::Array(vec![Value::Int(2), Value::Int(3)]),
        ],
    );
    let mut regs = new_regs(1);
    let mut vm = Vm::new(100);
    let r = run(&prog, &mut regs, &mut vm, false, 8);
    assert!(r.is_ok());
    assert_eq!(
        regs[0],
        Value::Array(vec![Value::Int(1), Value::Int(2), Value::Int(3)])
    );
}

#[test]
fn spread_of_array_in_dict_context_is_a_type_error() {
    let prog = program(
        vec![
            Opcode::AllocDict { capacity: 0, out: Writable::Reg(0) },
            Opcode::Spread { value: Readable::Const(0), out: Writable::Reg(0) },
        ],
        vec![1, 5],
        vec![Value::Array(vec![Value::Int(2)])],
    );
    let mut regs = new_regs(1);
    let mut vm = Vm::new(100);
    let r = run(&prog, &mut regs, &mut vm, false, 8);
    assert_eq!(
        r,
        Err(VmError::Eval { kind: EvalErrorKind::TypeMismatch, span: 5 })
    );
}

#[test]
fn jump_outside_the_scope_is_a_fatal_invariant_break() {
    let prog = program(vec![Opcode::Jump { instruction: Pointer(5) }], vec![1], vec![]);
    let mut regs = new_regs(1);
    let mut vm = Vm::new(100);
    let r = run(&prog, &mut regs, &mut vm, false, 8);
    assert_eq!(r, Err(VmError::Invariant { at: 0 }));
}

#[test]
fn jump_to_the_end_of_the_scope_exits_cleanly() {
    let prog = program(
        vec![
            Opcode::Jump { instruction: Pointer(2) },
            Opcode::CopyIsr { value: Readable::Const(0), out: Writable::Reg(0) },
        ],
        vec![1, 2],
        vec![Value::Int(5)],
    );
    let mut regs = new_regs(1);
    let mut vm = Vm::new(100);
    let r = run(&prog, &mut regs, &mut vm, false, 8);
    assert!(r.is_ok());
    // The jumped-over instruction never wrote.
    assert_eq!(regs[0], Value::Nothing);
}

#[test]
fn runaway_loop_is_reported_once_the_budget_is_exceeded() {
    let prog = program(
        vec![Opcode::BeginIter, Opcode::JumpTop],
        vec![3, 4],
        vec![],
    );
    let mut regs = new_regs(1);
    let mut vm = Vm::new(10);
    let r = run(&prog, &mut regs, &mut vm, false, 8);
    match r {
        Err(VmError::Eval { kind: EvalErrorKind::TooManyIterations, span: _ }) => (),
        other => panic!("expected a runaway-loop report, got {:?}", other),
    }
}

#[test]
fn select_picks_by_condition_without_branching() {
    let prog = program(
        vec![Opcode::Select {
            condition: Readable::Const(0),
            true_: Readable::Const(1),
            false_: Readable::Const(2),
            out: Writable::Reg(0),
        }],
        vec![1],
        vec![Value::Bool(false), Value::Int(1), Value::Int(2)],
    );
    let mut regs = new_regs(1);
    let mut vm = Vm::new(100);
    let r = run(&prog, &mut regs, &mut vm, false, 8);
    assert!(r.is_ok());
    assert_eq!(regs[0], Value::Int(2));
}

#[test]
fn returned_value_wins_over_joined_content() {
    let prog = program(
        vec![
            Opcode::CopyIsr { value: Readable::Const(0), out: Writable::Joined },
            Opcode::ReturnVal { value: Readable::Const(1) },
            Opcode::CopyIsr { value: Readable::Const(0), out: Writable::Reg(0) },
        ],
        vec![1, 2, 3],
        vec![Value::Str(String::from("A")), Value::Int(7)],
    );
    let mut regs = new_regs(1);
    let mut vm = Vm::new(100);
    let r = run(&prog, &mut regs, &mut vm, true, 8);
    assert_eq!(r.unwrap(), Value::Int(7));
    // The instruction after the return never ran.
    assert_eq!(regs[0], Value::Nothing);
}

#[test]
fn program_without_return_yields_its_joined_content() {
    let prog = program(
        vec![
            Opcode::CopyIsr { value: Readable::Const(0), out: Writable::Joined },
            Opcode::CopyIsr { value: Readable::Const(1), out: Writable::Joined },
        ],
        vec![1, 2],
        vec![Value::Str(String::from("A")), Value::Str(String::from("B"))],
    );
    let mut regs = new_regs(1);
    let mut vm = Vm::new(100);
    let r = run(&prog, &mut regs, &mut vm, true, 8);
    assert_eq!(
        r.unwrap(),
        Value::Elem(
            Tag::Joined,
            vec![Value::Str(String::from("A")), Value::Str(String::from("B"))],
        )
    );
}

#[test]
fn return_partway_still_folds_loop_content() {
    // A content-joining loop returns on its second iteration: the value
    // travels out as the function result, and the content accumulated so
    // far is still folded into the loop's product.
    let prog = program(
        vec![
            Opcode::Iter {
                len: 5,
                iterable: Readable::Const(0),
                content: true,
                out: Writable::Reg(0),
            },
            Opcode::Next { out: Writable::Reg(1) },
            Opcode::CopyIsr { value: Readable::Reg(1), out: Writable::Joined },
            Opcode::Eq {
                lhs: Readable::Reg(1),
                rhs: Readable::Const(1),
                out: Writable::Reg(2),
            },
            Opcode::JumpIfNot { condition: Readable::Reg(2), instruction: Pointer(0) },
            Opcode::ReturnVal { value: Readable::Const(2) },
        ],
        vec![1, 2, 3, 4, 5, 6],
        vec![
            Value::Array(vec![
                Value::Str(String::from("A")),
                Value::Str(String::from("B")),
                Value::Str(String::from("C")),
            ]),
            Value::Str(String::from("B")),
            Value::Int(7),
        ],
    );
    let mut regs = new_regs(3);
    let mut vm = Vm::new(100);
    let r = run(&prog, &mut regs, &mut vm, false, 8);
    assert_eq!(r.unwrap(), Value::Int(7));
    assert_eq!(
        regs[0],
        Value::Elem(
            Tag::Joined,
            vec![Value::Str(String::from("A")), Value::Str(String::from("B"))],
        )
    );
}

#[test]
fn while_loop_counts_with_jump_top() {
    // The classic while shape: test the condition, fall out of the scope
    // when it fails, otherwise run the body and rewind to the top.
    let mut prog = program(
        vec![
            Opcode::CopyIsr { value: Readable::Const(0), out: Writable::Reg(0) },
            Opcode::While { len: 5, content: false, out: Writable::Reg(2) },
            Opcode::BeginIter,
            Opcode::Lt {
                lhs: Readable::Reg(0),
                rhs: Readable::Const(1),
                out: Writable::Reg(1),
            },
            Opcode::JumpIfNot { condition: Readable::Reg(1), instruction: Pointer(5) },
            Opcode::AddAssign {
                value: Readable::Const(2),
                lhs_span: SpanId(0),
                out: AccessId(0),
            },
            Opcode::JumpTop,
        ],
        vec![1, 2, 3, 4, 5, 6, 7],
        vec![Value::Int(0), Value::Int(3), Value::Int(1)],
    );
    prog.span_pool = vec![50];
    prog.accesses = vec![Access { root: 0, segments: vec![] }];
    let mut regs = new_regs(3);
    let mut vm = Vm::new(100);
    let r = run(&prog, &mut regs, &mut vm, false, 8);
    assert!(r.is_ok());
    assert_eq!(regs[0], Value::Int(3));
}

#[test]
fn instantiation_captures_values_and_defaults_eagerly() {
    // The closure captures the variable and evaluates its parameter
    // default when it is instantiated; a later change of the variable is
    // not seen by the call.
    let mut prog = program(
        vec![
            Opcode::CopyIsr { value: Readable::Const(0), out: Writable::Reg(0) },
            Opcode::Instantiate { closure: ClosureId(0), out: Writable::Reg(1) },
            Opcode::CopyIsr { value: Readable::Const(1), out: Writable::Reg(0) },
            Opcode::Call {
                closure: AccessId(0),
                args: Readable::Const(2),
                math: false,
                trailing_comma: false,
                callee_span: SpanId(0),
                out: Writable::Reg(2),
            },
            Opcode::ReturnVal { value: Readable::Reg(2) },
            Opcode::Add {
                lhs: Readable::Reg(0),
                rhs: Readable::Reg(1),
                out: Writable::Reg(2),
            },
            Opcode::ReturnVal { value: Readable::Reg(2) },
        ],
        vec![1, 2, 3, 4, 5, 6, 7],
        vec![
            Value::Int(10),
            Value::Int(99),
            Value::Args(vec![]),
            Value::Int(7),
        ],
    );
    prog.strings = vec![String::from("p")];
    prog.span_pool = vec![60];
    prog.accesses = vec![Access { root: 1, segments: vec![] }];
    prog.closures = vec![Closure {
        start: 5,
        len: 2,
        content: false,
        frame: 3,
        captures: vec![(Readable::Reg(0), 0)],
        params: vec![Param {
            name: StringId(0),
            slot: 1,
            default: Some(Readable::Const(3)),
        }],
    }];
    let mut regs = new_regs(3);
    let mut vm = Vm::new(100);
    assert_eq!(run(&prog, &mut regs, &mut vm, false, 8).unwrap(), Value::Int(17));
}

#[test]
fn next_reaches_the_iterator_through_a_nested_scope() {
    // The `Next` sits inside an `Enter` scope nested in the `Iter`
    // scope: it still draws from the innermost attached iterator.
    let prog = program(
        vec![
            Opcode::Iter {
                len: 3,
                iterable: Readable::Const(0),
                content: true,
                out: Writable::Reg(0),
            },
            Opcode::Enter { len: 2, content: false, out: Writable::Reg(2) },
            Opcode::Next { out: Writable::Reg(1) },
            Opcode::CopyIsr { value: Readable::Reg(1), out: Writable::Joined },
        ],
        vec![1, 2, 3, 4],
        vec![Value::Array(vec![Value::Int(5)])],
    );
    let mut regs = new_regs(3);
    let mut vm = Vm::new(100);
    let r = run(&prog, &mut regs, &mut vm, false, 8);
    assert!(r.is_ok());
    assert_eq!(regs[1], Value::Int(5));
}

#[test]
fn styling_rules_are_scoped_to_their_region() {
    // A set rule inside a nested scope is unwound when the scope exits,
    // and the whole program is itself a region.
    let prog = program(
        vec![
            Opcode::Enter { len: 1, content: false, out: Writable::Reg(0) },
            Opcode::SetRule { target: Readable::Const(0), args: Readable::Const(1) },
        ],
        vec![1, 2],
        vec![Value::Str(String::from("text")), Value::Dict(vec![])],
    );
    let mut regs = new_regs(1);
    let mut vm = Vm::new(100);
    let r = run(&prog, &mut regs, &mut vm, false, 8);
    assert!(r.is_ok());
    assert_eq!(vm.styles.len(), 0);
}

#[test]
fn destructure_of_dict_with_missing_key_binds_nothing() {
    let mut prog = program(
        vec![Opcode::Destructure { value: Readable::Const(0), out: PatternId(0) }],
        vec![13],
        vec![Value::Dict(vec![(String::from("a"), Value::Int(1))])],
    );
    prog.strings = vec![String::from("a"), String::from("b")];
    prog.accesses = vec![
        Access { root: 0, segments: vec![] },
        Access { root: 1, segments: vec![] },
    ];
    prog.patterns = vec![Pattern::Dict {
        entries: vec![
            DictPatEntry { key: StringId(0), access: AccessId(0) },
            DictPatEntry { key: StringId(1), access: AccessId(1) },
        ],
        rest: None,
    }];
    let mut regs = new_regs(2);
    let mut vm = Vm::new(100);
    let r = run(&prog, &mut regs, &mut vm, false, 8);
    assert_eq!(
        r,
        Err(VmError::Eval { kind: EvalErrorKind::MissingKey, span: 13 })
    );
    assert_eq!(regs[0], Value::Nothing);
    assert_eq!(regs[1], Value::Nothing);
}

#[test]
fn destructure_of_dict_binds_entries_and_rest() {
    let mut prog = program(
        vec![Opcode::Destructure { value: Readable::Const(0), out: PatternId(0) }],
        vec![13],
        vec![Value::Dict(vec![
            (String::from("a"), Value::Int(1)),
            (String::from("b"), Value::Int(2)),
        ])],
    );
    prog.strings = vec![String::from("a")];
    prog.accesses = vec![
        Access { root: 0, segments: vec![] },
        Access { root: 1, segments: vec![] },
    ];
    prog.patterns = vec![Pattern::Dict {
        entries: vec![DictPatEntry { key: StringId(0), access: AccessId(0) }],
        rest: Some(AccessId(1)),
    }];
    let mut regs = new_regs(2);
    let mut vm = Vm::new(100);
    let r = run(&prog, &mut regs, &mut vm, false, 8);
    assert!(r.is_ok());
    assert_eq!(regs[0], Value::Int(1));
    assert_eq!(regs[1], Value::Dict(vec![(String::from("b"), Value::Int(2))]));
}

#[test]
fn strings_iterate_character_by_character() {
    let prog = program(
        vec![
            Opcode::Iter {
                len: 3,
                iterable: Readable::Const(0),
                content: true,
                out: Writable::Reg(0),
            },
            Opcode::Next { out: Writable::Reg(1) },
            Opcode::CopyIsr { value: Readable::Reg(1), out: Writable::Joined },
            Opcode::JumpTop,
        ],
        vec![1, 2, 3, 4],
        vec![Value::Str(String::from("héllo"))],
    );
    let mut regs = new_regs(2);
    let mut vm = Vm::new(100);
    let r = run(&prog, &mut regs, &mut vm, false, 8);
    assert!(r.is_ok());
    assert_eq!(
        regs[0],
        Value::Elem(
            Tag::Joined,
            vec![
                Value::Str(String::from("h")),
                Value::Str(String::from("é")),
                Value::Str(String::from("l")),
                Value::Str(String::from("l")),
                Value::Str(String::from("o")),
            ],
        )
    );
}
