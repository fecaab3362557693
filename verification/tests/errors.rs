use picovm::opcodes::{
    AccessId, ClosureId, ModuleId, Opcode, Readable, SpanId, StringId, Writable,
};
use picovm::ops::EvalErrorKind;
use picovm::value::Value;
use picovm::vm::{new_regs, run, Access, Closure, Param, Program, Segment, Vm, VmError};

fn bare(instructions: Vec<Opcode>, spans: Vec<u64>, constants: Vec<Value>) -> Program {
    Program {
        instructions,
        spans,
        constants,
        strings: vec![],
        span_pool: vec![],
        labels: vec![],
        accesses: vec![],
        patterns: vec![],
        closures: vec![],
        modules: vec![],
        includes: vec![],
    }
}

fn eval_err(r: Result<Value, VmError>) -> (EvalErrorKind, u64) {
    match r {
        Err(VmError::Eval { kind, span }) => (kind, span),
        other => panic!("expected an evaluation error, got {:?}", other),
    }
}

#[test]
fn integer_overflow_is_reported() {
    let prog = bare(
        vec![Opcode::Add {
            lhs: Readable::Const(0),
            rhs: Readable::Const(1),
            out: Writable::Reg(0),
        }],
        vec![4],
        vec![Value::Int(i64::MAX), Value::Int(1)],
    );
    let mut regs = new_regs(1);
    let mut vm = Vm::new(100);
    assert_eq!(eval_err(run(&prog, &mut regs, &mut vm, false, 8)), (EvalErrorKind::Overflow, 4));
}

#[test]
fn ordering_of_non_integers_is_not_comparable() {
    let prog = bare(
        vec![Opcode::Lt {
            lhs: Readable::Const(0),
            rhs: Readable::Const(1),
            out: Writable::Reg(0),
        }],
        vec![6],
        vec![Value::Bool(true), Value::Bool(false)],
    );
    let mut regs = new_regs(1);
    let mut vm = Vm::new(100);
    assert_eq!(
        eval_err(run(&prog, &mut regs, &mut vm, false, 8)),
        (EvalErrorKind::NotComparable, 6)
    );
}

#[test]
fn equality_of_containers_is_not_comparable() {
    let prog = bare(
        vec![Opcode::Eq {
            lhs: Readable::Const(0),
            rhs: Readable::Const(1),
            out: Writable::Reg(0),
        }],
        vec![2],
        vec![
            Value::Array(vec![Value::Int(1)]),
            Value::Array(vec![Value::Int(1)]),
        ],
    );
    let mut regs = new_regs(1);
    let mut vm = Vm::new(100);
    assert_eq!(
        eval_err(run(&prog, &mut regs, &mut vm, false, 8)),
        (EvalErrorKind::NotComparable, 2)
    );
}

#[test]
fn iterating_a_non_iterable_value_is_a_type_error() {
    let prog = bare(
        vec![Opcode::Iter {
            len: 0,
            iterable: Readable::Const(0),
            content: false,
            out: Writable::Reg(0),
        }],
        vec![8],
        vec![Value::Int(1)],
    );
    let mut regs = new_regs(1);
    let mut vm = Vm::new(100);
    assert_eq!(
        eval_err(run(&prog, &mut regs, &mut vm, false, 8)),
        (EvalErrorKind::NotIterable, 8)
    );
}

#[test]
fn spreading_an_unspreadable_value_into_arguments() {
    let prog = bare(
        vec![
            Opcode::AllocArgs { capacity: 0, out: Writable::Reg(0) },
            Opcode::Spread { value: Readable::Const(0), out: Writable::Reg(0) },
        ],
        vec![1, 9],
        vec![Value::Int(3)],
    );
    let mut regs = new_regs(1);
    let mut vm = Vm::new(100);
    assert_eq!(
        eval_err(run(&prog, &mut regs, &mut vm, false, 8)),
        (EvalErrorKind::Unspreadable, 9)
    );
}

#[test]
fn indexing_reads_through_an_access_path() {
    let mut prog = bare(
        vec![
            Opcode::CopyIsr { value: Readable::Const(0), out: Writable::Reg(0) },
            Opcode::ReadAccess { access: AccessId(0), out: Writable::Reg(1) },
        ],
        vec![1, 2],
        vec![
            Value::Array(vec![Value::Int(10), Value::Int(20)]),
            Value::Int(1),
        ],
    );
    prog.accesses = vec![Access { root: 0, segments: vec![Segment::Index(Readable::Const(1))] }];
    let mut regs = new_regs(2);
    let mut vm = Vm::new(100);
    let r = run(&prog, &mut regs, &mut vm, false, 8);
    assert!(r.is_ok());
    assert_eq!(regs[1], Value::Int(20));
}

#[test]
fn out_of_bounds_index_is_reported() {
    let mut prog = bare(
        vec![
            Opcode::CopyIsr { value: Readable::Const(0), out: Writable::Reg(0) },
            Opcode::ReadAccess { access: AccessId(0), out: Writable::Reg(1) },
        ],
        vec![1, 2],
        vec![Value::Array(vec![Value::Int(10)]), Value::Int(5)],
    );
    prog.accesses = vec![Access { root: 0, segments: vec![Segment::Index(Readable::Const(1))] }];
    let mut regs = new_regs(2);
    let mut vm = Vm::new(100);
    assert_eq!(
        eval_err(run(&prog, &mut regs, &mut vm, false, 8)),
        (EvalErrorKind::IndexOutOfBounds, 2)
    );
}

#[test]
fn field_access_on_a_value_without_fields() {
    let mut prog = bare(
        vec![
            Opcode::CopyIsr { value: Readable::Const(0), out: Writable::Reg(0) },
            Opcode::ReadAccess { access: AccessId(0), out: Writable::Reg(1) },
        ],
        vec![1, 2],
        vec![Value::Int(3)],
    );
    prog.strings = vec![String::from("x")];
    prog.accesses = vec![Access { root: 0, segments: vec![Segment::Field(StringId(0))] }];
    let mut regs = new_regs(2);
    let mut vm = Vm::new(100);
    assert_eq!(
        eval_err(run(&prog, &mut regs, &mut vm, false, 8)),
        (EvalErrorKind::NoFields, 2)
    );
}

#[test]
fn missing_dictionary_key_is_reported() {
    let mut prog = bare(
        vec![
            Opcode::CopyIsr { value: Readable::Const(0), out: Writable::Reg(0) },
            Opcode::ReadAccess { access: AccessId(0), out: Writable::Reg(1) },
        ],
        vec![1, 2],
        vec![Value::Dict(vec![(String::from("a"), Value::Int(1))])],
    );
    prog.strings = vec![String::from("b")];
    prog.accesses = vec![Access { root: 0, segments: vec![Segment::Field(StringId(0))] }];
    let mut regs = new_regs(2);
    let mut vm = Vm::new(100);
    assert_eq!(
        eval_err(run(&prog, &mut regs, &mut vm, false, 8)),
        (EvalErrorKind::MissingKey, 2)
    );
}

#[test]
fn compound_assignment_attributes_target_errors_to_the_target_span() {
    // The target path is a field of an integer: the failure carries the
    // left-hand side's own span, not the instruction's.
    let mut prog = bare(
        vec![
            Opcode::CopyIsr { value: Readable::Const(0), out: Writable::Reg(0) },
            Opcode::AddAssign {
                value: Readable::Const(1),
                lhs_span: SpanId(0),
                out: AccessId(0),
            },
        ],
        vec![1, 5],
        vec![Value::Int(3), Value::Int(1)],
    );
    prog.strings = vec![String::from("x")];
    prog.span_pool = vec![77];
    prog.accesses = vec![Access { root: 0, segments: vec![Segment::Field(StringId(0))] }];
    let mut regs = new_regs(1);
    let mut vm = Vm::new(100);
    assert_eq!(
        eval_err(run(&prog, &mut regs, &mut vm, false, 8)),
        (EvalErrorKind::NoFields, 77)
    );
}

#[test]
fn compound_assignment_attributes_value_errors_to_the_instruction_span() {
    // The target reads fine but the combination mismatches: the failure
    // carries the instruction's span.
    let mut prog = bare(
        vec![
            Opcode::CopyIsr { value: Readable::Const(0), out: Writable::Reg(0) },
            Opcode::AddAssign {
                value: Readable::Const(1),
                lhs_span: SpanId(0),
                out: AccessId(0),
            },
        ],
        vec![1, 5],
        vec![Value::Int(3), Value::Bool(true)],
    );
    prog.span_pool = vec![77];
    prog.accesses = vec![Access { root: 0, segments: vec![] }];
    let mut regs = new_regs(1);
    let mut vm = Vm::new(100);
    assert_eq!(
        eval_err(run(&prog, &mut regs, &mut vm, false, 8)),
        (EvalErrorKind::TypeMismatch, 5)
    );
}

#[test]
fn compound_assignment_adds_in_place() {
    let mut prog = bare(
        vec![
            Opcode::CopyIsr { value: Readable::Const(0), out: Writable::Reg(0) },
            Opcode::AddAssign {
                value: Readable::Const(1),
                lhs_span: SpanId(0),
                out: AccessId(0),
            },
        ],
        vec![1, 5],
        vec![Value::Int(3), Value::Int(4)],
    );
    prog.span_pool = vec![77];
    prog.accesses = vec![Access { root: 0, segments: vec![] }];
    let mut regs = new_regs(1);
    let mut vm = Vm::new(100);
    let r = run(&prog, &mut regs, &mut vm, false, 8);
    assert!(r.is_ok());
    assert_eq!(regs[0], Value::Int(7));
}

fn call_program(args: Value) -> Program {
    // Main: instantiate the closure, call it, return the call's result.
    // Body (instructions 3 and 4): add one to the parameter and return.
    let mut prog = bare(
        vec![
            Opcode::Instantiate { closure: ClosureId(0), out: Writable::Reg(0) },
            Opcode::Call {
                closure: AccessId(0),
                args: Readable::Const(0),
                math: false,
                trailing_comma: false,
                callee_span: SpanId(0),
                out: Writable::Reg(1),
            },
            Opcode::ReturnVal { value: Readable::Reg(1) },
            Opcode::Add {
                lhs: Readable::Reg(0),
                rhs: Readable::Const(1),
                out: Writable::Reg(1),
            },
            Opcode::ReturnVal { value: Readable::Reg(1) },
        ],
        vec![1, 2, 3, 4, 5],
        vec![args, Value::Int(1)],
    );
    prog.strings = vec![String::from("x")];
    prog.span_pool = vec![99];
    prog.accesses = vec![Access { root: 0, segments: vec![] }];
    prog.closures = vec![Closure {
        start: 3,
        len: 2,
        content: false,
        frame: 2,
        captures: vec![],
        params: vec![Param { name: StringId(0), slot: 0, default: None }],
    }];
    prog
}

#[test]
fn calling_a_closure_binds_positional_arguments() {
    let prog = call_program(Value::Args(vec![(None, Value::Int(41))]));
    let mut regs = new_regs(2);
    let mut vm = Vm::new(100);
    assert_eq!(run(&prog, &mut regs, &mut vm, false, 8).unwrap(), Value::Int(42));
}

#[test]
fn calling_a_closure_binds_named_arguments() {
    let prog = call_program(Value::Args(vec![(Some(String::from("x")), Value::Int(9))]));
    let mut regs = new_regs(2);
    let mut vm = Vm::new(100);
    assert_eq!(run(&prog, &mut regs, &mut vm, false, 8).unwrap(), Value::Int(10));
}

#[test]
fn missing_argument_is_reported() {
    let prog = call_program(Value::Args(vec![]));
    let mut regs = new_regs(2);
    let mut vm = Vm::new(100);
    assert_eq!(
        eval_err(run(&prog, &mut regs, &mut vm, false, 8)),
        (EvalErrorKind::MissingArgument, 2)
    );
}

#[test]
fn unknown_argument_is_reported() {
    let prog = call_program(Value::Args(vec![
        (None, Value::Int(1)),
        (Some(String::from("nope")), Value::Int(2)),
    ]));
    let mut regs = new_regs(2);
    let mut vm = Vm::new(100);
    assert_eq!(
        eval_err(run(&prog, &mut regs, &mut vm, false, 8)),
        (EvalErrorKind::UnknownArgument, 2)
    );
}

#[test]
fn calling_a_non_callable_is_reported_at_the_callee_span() {
    let mut prog = bare(
        vec![
            Opcode::CopyIsr { value: Readable::Const(0), out: Writable::Reg(0) },
            Opcode::Call {
                closure: AccessId(0),
                args: Readable::Const(1),
                math: false,
                trailing_comma: false,
                callee_span: SpanId(0),
                out: Writable::Reg(1),
            },
        ],
        vec![1, 2],
        vec![Value::Int(5), Value::Args(vec![])],
    );
    prog.span_pool = vec![99];
    prog.accesses = vec![Access { root: 0, segments: vec![] }];
    let mut regs = new_regs(2);
    let mut vm = Vm::new(100);
    assert_eq!(
        eval_err(run(&prog, &mut regs, &mut vm, false, 8)),
        (EvalErrorKind::NotCallable, 99)
    );
}

#[test]
fn exhausted_call_depth_is_reported() {
    let prog = call_program(Value::Args(vec![(None, Value::Int(41))]));
    let mut regs = new_regs(2);
    let mut vm = Vm::new(100);
    assert_eq!(
        eval_err(run(&prog, &mut regs, &mut vm, false, 0)),
        (EvalErrorKind::TooDeeplyNested, 2)
    );
}

#[test]
fn failed_module_load_is_a_diagnostic() {
    let mut prog = bare(
        vec![Opcode::InstantiateModule {
            path: Readable::Const(0),
            module: ModuleId(0),
            out: Writable::Reg(0),
        }],
        vec![3],
        vec![Value::Str(String::from("lib"))],
    );
    prog.modules = vec![None];
    let mut regs = new_regs(1);
    let mut vm = Vm::new(100);
    assert_eq!(
        eval_err(run(&prog, &mut regs, &mut vm, false, 8)),
        (EvalErrorKind::ModuleLoadFailed, 3)
    );
}

#[test]
fn include_of_an_unknown_path_is_a_diagnostic() {
    let prog = bare(
        vec![Opcode::Include { path: Readable::Const(0), out: Writable::Reg(0) }],
        vec![3],
        vec![Value::Str(String::from("chapter"))],
    );
    let mut regs = new_regs(1);
    let mut vm = Vm::new(100);
    assert_eq!(
        eval_err(run(&prog, &mut regs, &mut vm, false, 8)),
        (EvalErrorKind::IncludeFailed, 3)
    );
}

#[test]
fn include_of_a_loaded_path_yields_its_content() {
    let mut prog = bare(
        vec![Opcode::Include { path: Readable::Const(0), out: Writable::Reg(0) }],
        vec![3],
        vec![Value::Str(String::from("chapter"))],
    );
    prog.includes = vec![(String::from("chapter"), Value::Str(String::from("text")))];
    let mut regs = new_regs(1);
    let mut vm = Vm::new(100);
    let r = run(&prog, &mut regs, &mut vm, false, 8);
    assert!(r.is_ok());
    assert_eq!(regs[0], Value::Str(String::from("text")));
}

#[test]
fn dictionary_construction_replaces_equal_keys() {
    let prog = bare(
        vec![
            Opcode::AllocDict { capacity: 2, out: Writable::Reg(0) },
            Opcode::Insert {
                key: Readable::Const(0),
                value: Readable::Const(1),
                out: Writable::Reg(0),
            },
            Opcode::Insert {
                key: Readable::Const(0),
                value: Readable::Const(2),
                out: Writable::Reg(0),
            },
        ],
        vec![1, 2, 3],
        vec![
            Value::Str(String::from("k")),
            Value::Int(1),
            Value::Int(2),
        ],
    );
    let mut regs = new_regs(1);
    let mut vm = Vm::new(100);
    let r = run(&prog, &mut regs, &mut vm, false, 8);
    assert!(r.is_ok());
    assert_eq!(regs[0], Value::Dict(vec![(String::from("k"), Value::Int(2))]));
}
