use register_vm::backtrace::BacktraceInfo;
use register_vm::instruction::CallTarget;
use register_vm::instruction::ComparisonType;
use register_vm::instruction::Condition;
use register_vm::instruction::Immediate;
use register_vm::instruction::Instruction;
use register_vm::instruction::JumpTarget;
use register_vm::instruction::RegisterType;
use register_vm::instruction::Source;
use register_vm::instruction::Target;
use register_vm::machine::driver::call_bytecode_function;
use register_vm::machine::driver::call_main;
use register_vm::machine::driver::call_native_function;
use register_vm::machine::driver::Completion;
use register_vm::machine::driver::DriverStatus;
use register_vm::machine::driver::Machine;
use register_vm::machine::processor::Comparison;
use register_vm::machine::processor::Core;
use register_vm::machine::Fault;
use register_vm::machine::InstructionResult;
use register_vm::memory::Memory;
use register_vm::program::function::Function;
use register_vm::program::function::FunctionPath;
use register_vm::program::Module;
use register_vm::program::NamedFunction;
use register_vm::program::StringTablePath;
use register_vm::value::Value;
use std::sync::Arc;

fn reg(index: usize) -> Target {
    Target(index, RegisterType::U64)
}

fn from(index: usize) -> Source {
    Source::Register(index, RegisterType::U64)
}

fn constant(value: u64) -> Source {
    Source::Immediate(Immediate::U64(value))
}

fn call(name: &str) -> Instruction {
    Instruction::Call(CallTarget::Label(FunctionPath::from_str(name)), Condition::Always)
}

fn bytecode(name: &str, instructions: Vec<Instruction>) -> NamedFunction {
    NamedFunction { name: name.to_string(), function: Function::ByteCode(Arc::new(instructions)) }
}

fn native(name: &str, number: u64) -> NamedFunction {
    NamedFunction { name: name.to_string(), function: Function::Native(number) }
}

fn module_of(functions: Vec<NamedFunction>, strings: Vec<&str>) -> Module {
    Module::new("", functions, strings.into_iter().map(|s| s.to_string()).collect(), Vec::new())
}

fn machine() -> Machine {
    Machine::new(Core::default(), Memory::new(), BacktraceInfo::new())
}

/// Runs the program of the module to its end; no native function is called.
fn run(machine: &mut Machine, module: &Module) -> Result<Completion, Fault> {
    let mut status = call_main(machine, module)?;
    for _ in 0..1000 {
        match status {
            DriverStatus::Running => {
                status = call_bytecode_function(machine, module, 1000)?;
            },
            DriverStatus::Done(completion) => {
                return Ok(completion);
            },
            DriverStatus::CallNative(number) => {
                panic!("the program called the native function {}", number);
            },
        }
    }
    panic!("the program did not end");
}

fn register(machine: &Machine, index: usize) -> Value {
    machine.core.registers[index].value
}

#[test]
fn iterative_fibonacci_tenth_term() {
    let main = vec![
        Instruction::Load(reg(1), constant(0)),
        Instruction::Load(reg(2), constant(1)),
        Instruction::Load(reg(3), constant(2)),
        Instruction::Add(reg(4), from(1), false, false),
        Instruction::Add(reg(4), from(2), false, false),
        Instruction::Load(reg(1), from(2)),
        Instruction::Load(reg(2), from(4)),
        Instruction::Sub(reg(4), from(4), false, false),
        Instruction::Compare(reg(3), constant(10), ComparisonType::Equal),
        Instruction::Goto(JumpTarget::Relative(3), Condition::Equal),
        Instruction::Add(reg(3), constant(1), false, false),
        Instruction::Goto(JumpTarget::Relative(-8), Condition::Always),
        Instruction::Return(Condition::Always),
    ];
    let module = module_of(vec![bytecode("main", main)], vec![]);
    let mut machine = machine();
    let completion = run(&mut machine, &module).unwrap();
    assert!(matches!(completion, Completion::Returned));
    assert_eq!(register(&machine, 2), Value::U64(55));
    assert_eq!(register(&machine, 1), Value::U64(34));
    assert_eq!(register(&machine, 3), Value::U64(10));
    assert_eq!(machine.backtrace.len(), 0);
}

#[test]
fn iterative_fibonacci_with_the_test_before_the_body() {
    let main = vec![
        Instruction::Load(reg(1), constant(0)),
        Instruction::Load(reg(2), constant(1)),
        Instruction::Load(reg(3), constant(2)),
        Instruction::Compare(reg(3), constant(10), ComparisonType::Equal),
        Instruction::Goto(JumpTarget::Relative(8), Condition::Equal),
        Instruction::Add(reg(4), from(1), false, false),
        Instruction::Add(reg(4), from(2), false, false),
        Instruction::Load(reg(1), from(2)),
        Instruction::Load(reg(2), from(4)),
        Instruction::Sub(reg(4), from(4), false, false),
        Instruction::Add(reg(3), constant(1), false, false),
        Instruction::Goto(JumpTarget::Relative(-8), Condition::Always),
        Instruction::Return(Condition::Always),
    ];
    let module = module_of(vec![bytecode("main", main)], vec![]);
    let mut machine = machine();
    run(&mut machine, &module).unwrap();
    assert_eq!(register(&machine, 2), Value::U64(34));
    assert_eq!(register(&machine, 1), Value::U64(21));
}

fn recursive_fibonacci() -> Vec<Instruction> {
    vec![
        Instruction::Compare(reg(1), constant(1), ComparisonType::GreaterThan),
        Instruction::Goto(JumpTarget::Relative(3), Condition::GreaterThan),
        Instruction::Load(reg(0), from(1)),
        Instruction::Return(Condition::Always),
        Instruction::Sub(reg(1), constant(1), false, false),
        Instruction::Push(from(1)),
        call("fib"),
        Instruction::Pop(reg(1)),
        Instruction::Sub(reg(1), constant(1), false, false),
        Instruction::Push(from(0)),
        call("fib"),
        Instruction::Pop(reg(2)),
        Instruction::Add(reg(0), from(2), false, false),
        Instruction::Return(Condition::Always),
    ]
}

#[test]
fn recursive_fibonacci_of_ten() {
    let main = vec![
        Instruction::Load(reg(1), constant(10)),
        call("fib"),
        Instruction::Return(Condition::Always),
    ];
    let module = module_of(
        vec![bytecode("fib", recursive_fibonacci()), bytecode("main", main)],
        vec![],
    );
    let mut machine = machine();
    let completion = run(&mut machine, &module).unwrap();
    assert!(matches!(completion, Completion::Returned));
    assert_eq!(register(&machine, 0), Value::U64(55));
    assert_eq!(machine.backtrace.len(), 0);
}

#[test]
fn recursive_fibonacci_of_small_numbers() {
    let expected = [0u64, 1, 1, 2, 3, 5, 8, 13];
    for (n, fib) in expected.iter().enumerate() {
        let main = vec![
            Instruction::Load(reg(1), constant(n as u64)),
            call("fib"),
            Instruction::Return(Condition::Always),
        ];
        let module = module_of(
            vec![bytecode("fib", recursive_fibonacci()), bytecode("main", main)],
            vec![],
        );
        let mut machine = machine();
        run(&mut machine, &module).unwrap();
        assert_eq!(register(&machine, 0), Value::U64(*fib));
    }
}

#[test]
fn hello_world_calls_its_native_function() {
    let main = vec![call("hello_world"), Instruction::Return(Condition::Always)];
    let module = module_of(vec![bytecode("main", main), native("hello_world", 7)], vec![]);
    let mut machine = machine();
    let status = call_main(&mut machine, &module).unwrap();
    assert!(matches!(status, DriverStatus::Running));
    let status = call_bytecode_function(&mut machine, &module, 100).unwrap();
    assert!(matches!(status, DriverStatus::CallNative(7)));
    assert_eq!(machine.backtrace.len(), 2);
    assert_eq!(machine.backtrace.get(1).unwrap().get_function_name(), "hello_world");
    let printed = format!("Hello, world!\n");
    println!("{}", printed.trim_end());
    assert_eq!(printed, "Hello, world!\n");
    let status = call_native_function(&mut machine, InstructionResult::Continue).unwrap();
    assert!(matches!(status, DriverStatus::Running));
    assert_eq!(machine.backtrace.len(), 1);
    let status = call_bytecode_function(&mut machine, &module, 100).unwrap();
    assert!(matches!(status, DriverStatus::Done(Completion::Returned)));
    assert_eq!(machine.backtrace.len(), 0);
}

#[test]
fn division_by_zero_faults_with_main_on_the_trace() {
    let main = vec![
        Instruction::Load(reg(1), constant(10)),
        Instruction::Load(reg(2), constant(0)),
        Instruction::Div(reg(1), from(2), false),
        Instruction::Return(Condition::Always),
    ];
    let module = module_of(vec![bytecode("main", main)], vec![]);
    let mut machine = machine();
    let result = run(&mut machine, &module);
    assert!(matches!(result, Err(Fault::DivisionByZero)));
    assert_eq!(machine.backtrace.len(), 1);
    assert_eq!(machine.backtrace.get(0).unwrap().get_function_name(), "main");
    assert_eq!(register(&machine, 1), Value::U64(10));
}

#[test]
fn modulo_by_zero_faults() {
    let main = vec![
        Instruction::Load(reg(1), constant(10)),
        Instruction::Mod(reg(1), constant(0), true),
        Instruction::Return(Condition::Always),
    ];
    let module = module_of(vec![bytecode("main", main)], vec![]);
    let mut machine = machine();
    assert!(matches!(run(&mut machine, &module), Err(Fault::DivisionByZero)));
}

#[test]
fn overflow_faults_unless_wrapping_is_allowed() {
    let target = Target(1, RegisterType::U8);
    let one = Source::Immediate(Immediate::U8(1));
    let load = Instruction::Load(target, Source::Immediate(Immediate::U8(255)));

    let strict = vec![
        load.clone(),
        Instruction::Add(target, one, false, false),
        Instruction::Return(Condition::Always),
    ];
    let module = module_of(vec![bytecode("main", strict)], vec![]);
    let mut machine = machine();
    assert!(matches!(run(&mut machine, &module), Err(Fault::Overflow)));
    assert_eq!(register(&machine, 1), Value::U8(255));
    assert!(!machine.core.flags.carry);

    let wrapping = vec![
        load,
        Instruction::Add(target, one, true, false),
        Instruction::Return(Condition::Always),
    ];
    let module = module_of(vec![bytecode("main", wrapping)], vec![]);
    let mut machine = self::machine();
    run(&mut machine, &module).unwrap();
    assert_eq!(register(&machine, 1), Value::U8(0));
    assert!(machine.core.flags.carry);
    assert!(machine.core.flags.zero);
    assert!(!machine.core.flags.negative);
}

#[test]
fn string_interning_round_trip() {
    let path = StringTablePath::from_str("");
    let main = vec![
        Instruction::GetStringRef(Target(8, RegisterType::Reference), path.clone(), 0),
        Instruction::Load(Target(1, RegisterType::Reference), Source::Register(8, RegisterType::Reference)),
        Instruction::GetStringRef(Target(8, RegisterType::Reference), path.clone(), 0),
        Instruction::Load(Target(2, RegisterType::Reference), Source::Register(8, RegisterType::Reference)),
        Instruction::Return(Condition::Always),
    ];
    let mut module = module_of(vec![bytecode("main", main)], vec![]);
    assert_eq!(module.add_string(&path, "x"), Some(0));
    let mut machine = machine();
    module.add_strings_to_memory(&mut machine.memory).unwrap();
    let interned = machine.memory.get_string_ref_from_path(&path, 0).unwrap();
    run(&mut machine, &module).unwrap();
    let first = register(&machine, 1);
    let second = register(&machine, 2);
    assert_eq!(first, second);
    assert_eq!(first, interned);
    match first {
        Value::MemoryRef(handle) => {
            assert_ne!(handle, 0);
            assert_eq!(machine.memory.get_string(handle, &module).unwrap(), "x");
        },
        other => panic!("the register holds {:?}", other),
    }
}

#[test]
fn a_missing_main_is_not_found() {
    let module = module_of(vec![bytecode("other", vec![Instruction::Halt])], vec![]);
    let mut machine = machine();
    match call_main(&mut machine, &module) {
        Err(Fault::FunctionNotFound(path)) => assert_eq!(path.to_string(), "main"),
        other => panic!("call_main gave {:?}", other.map(|_| ())),
    }
    assert_eq!(machine.backtrace.len(), 0);
}

#[test]
fn a_missing_callee_is_not_found() {
    let main = vec![call("nowhere::f"), Instruction::Return(Condition::Always)];
    let module = module_of(vec![bytecode("main", main)], vec![]);
    let mut machine = machine();
    match run(&mut machine, &module) {
        Err(Fault::FunctionNotFound(path)) => assert_eq!(path.to_string(), "nowhere::f"),
        other => panic!("the program gave {:?}", other.map(|_| ())),
    }
    assert_eq!(machine.backtrace.len(), 1);
}

#[test]
fn halt_stops_the_program_from_inside_a_call() {
    let inner = vec![Instruction::Load(reg(9), constant(99)), Instruction::Halt];
    let main = vec![
        Instruction::Load(reg(9), constant(5)),
        call("inner"),
        Instruction::Load(reg(1), constant(1)),
        Instruction::Return(Condition::Always),
    ];
    let module = module_of(vec![bytecode("main", main), bytecode("inner", inner)], vec![]);
    let mut machine = machine();
    let completion = run(&mut machine, &module).unwrap();
    assert!(matches!(completion, Completion::Stopped));
    assert_eq!(register(&machine, 1), Value::U64(0));
    assert_eq!(register(&machine, 9), Value::U64(0));
    assert_eq!(machine.backtrace.len(), 0);
}

#[test]
fn a_call_restores_the_registers_from_the_eighth_on() {
    let callee = vec![
        Instruction::Load(reg(0), constant(1)),
        Instruction::Load(reg(7), constant(2)),
        Instruction::Load(reg(8), constant(3)),
        Instruction::Load(reg(31), constant(4)),
        Instruction::Return(Condition::Always),
    ];
    let main = vec![
        Instruction::Load(reg(7), constant(70)),
        Instruction::Load(reg(8), constant(80)),
        Instruction::Load(reg(31), constant(310)),
        call("callee"),
        Instruction::Load(reg(20), from(8)),
        Instruction::Halt,
    ];
    let module = module_of(vec![bytecode("main", main), bytecode("callee", callee)], vec![]);
    let mut machine = machine();
    let status = call_main(&mut machine, &module).unwrap();
    assert!(matches!(status, DriverStatus::Running));
    // Up to the call, the call itself, and the callee up to and with its return.
    let status = call_bytecode_function(&mut machine, &module, 3 + 1 + 5).unwrap();
    assert!(matches!(status, DriverStatus::Running));
    assert_eq!(register(&machine, 0), Value::U64(1));
    assert_eq!(register(&machine, 7), Value::U64(2));
    assert_eq!(register(&machine, 8), Value::U64(80));
    assert_eq!(register(&machine, 31), Value::U64(310));
    assert_eq!(machine.backtrace.len(), 1);
}

#[test]
fn a_conditional_return_that_is_not_taken_moves_on() {
    let main = vec![
        Instruction::Return(Condition::Zero),
        Instruction::Load(reg(1), constant(3)),
        Instruction::Sub(reg(1), constant(3), false, false),
        Instruction::Return(Condition::NotZero),
        Instruction::Return(Condition::Zero),
        Instruction::Load(reg(1), constant(9)),
        Instruction::Halt,
    ];
    let module = module_of(vec![bytecode("main", main)], vec![]);
    let mut machine = machine();
    let completion = run(&mut machine, &module).unwrap();
    assert!(matches!(completion, Completion::Returned));
    assert_eq!(register(&machine, 1), Value::U64(0));
}

#[test]
fn compare_records_the_relation_found() {
    let cases = [
        (5u64, 7u64, ComparisonType::LessThan, Comparison::LessThan),
        (7, 5, ComparisonType::LessThan, Comparison::GreaterThanOrEqual),
        (5, 5, ComparisonType::LessThan, Comparison::GreaterThanOrEqual),
        (5, 5, ComparisonType::Equal, Comparison::Equal),
        (5, 6, ComparisonType::Equal, Comparison::NotEqual),
        (5, 5, ComparisonType::NotEqual, Comparison::Equal),
        (5, 6, ComparisonType::NotEqual, Comparison::NotEqual),
        (5, 5, ComparisonType::LessThanOrEqual, Comparison::LessThanOrEqual),
        (6, 5, ComparisonType::LessThanOrEqual, Comparison::GreaterThan),
        (6, 5, ComparisonType::GreaterThan, Comparison::GreaterThan),
        (5, 5, ComparisonType::GreaterThan, Comparison::LessThanOrEqual),
        (5, 5, ComparisonType::GreaterThanOrEqual, Comparison::GreaterThanOrEqual),
        (4, 5, ComparisonType::GreaterThanOrEqual, Comparison::LessThan),
    ];
    for (left, right, kind, expected) in cases {
        let mut core = Core::default();
        core.load_instruction(&reg(1), &constant(left)).unwrap();
        core.compare_instruction(&reg(1), &constant(right), &kind).unwrap();
        assert_eq!(core.flags.comparison, expected);
    }
}

#[test]
fn a_jump_to_a_label_is_refused() {
    let main = vec![Instruction::Goto(JumpTarget::Label("end".to_string()), Condition::Always)];
    let module = module_of(vec![bytecode("main", main)], vec![]);
    let mut machine = machine();
    assert!(matches!(run(&mut machine, &module), Err(Fault::InvalidJump)));
}

#[test]
fn a_jump_before_the_first_instruction_is_refused() {
    let main = vec![Instruction::Goto(JumpTarget::Relative(-1), Condition::Always)];
    let module = module_of(vec![bytecode("main", main)], vec![]);
    let mut machine = machine();
    assert!(matches!(run(&mut machine, &module), Err(Fault::InvalidJump)));
}

#[test]
fn running_past_the_last_instruction_faults() {
    let main = vec![Instruction::NoOp];
    let module = module_of(vec![bytecode("main", main)], vec![]);
    let mut machine = machine();
    assert!(matches!(run(&mut machine, &module), Err(Fault::InvalidInstruction)));
}

#[test]
fn reserved_instructions_fault() {
    for reserved in [
        Instruction::Store(constant(0), constant(0), constant(0)),
        Instruction::CreateObject(reg(1)),
        Instruction::Call(CallTarget::Vtable(constant(0), constant(0)), Condition::Always),
        Instruction::Call(CallTarget::Closure(constant(0)), Condition::Always),
    ] {
        let module = module_of(vec![bytecode("main", vec![reserved])], vec![]);
        let mut machine = machine();
        assert!(matches!(run(&mut machine, &module), Err(Fault::InvalidInstruction)));
    }
}

#[test]
fn a_register_out_of_range_faults() {
    let main = vec![Instruction::Load(reg(32), constant(1))];
    let module = module_of(vec![bytecode("main", main)], vec![]);
    let mut machine = machine();
    assert!(matches!(run(&mut machine, &module), Err(Fault::InvalidRegister)));
}

#[test]
fn operands_of_different_types_fault() {
    let main = vec![
        Instruction::Load(reg(1), constant(1)),
        Instruction::Add(reg(1), Source::Immediate(Immediate::U8(1)), true, false),
    ];
    let module = module_of(vec![bytecode("main", main)], vec![]);
    let mut machine = machine();
    assert!(matches!(run(&mut machine, &module), Err(Fault::InvalidOperation(_))));
}

#[test]
fn bitwise_instructions_refuse_floating_point_operands() {
    let target = Target(1, RegisterType::F32);
    let main = vec![
        Instruction::Load(target, Source::Immediate(Immediate::F32(1.0f32.to_bits()))),
        Instruction::And(target, Source::Immediate(Immediate::F32(1.0f32.to_bits()))),
    ];
    let module = module_of(vec![bytecode("main", main)], vec![]);
    let mut machine = machine();
    assert!(matches!(run(&mut machine, &module), Err(Fault::InvalidOperation(_))));
}

#[test]
fn bitwise_instructions_set_zero_and_negative_and_leave_carry() {
    let target = Target(1, RegisterType::I8);
    let mut core = Core::default();
    core.load_instruction(&Target(1, RegisterType::U8), &Source::Immediate(Immediate::U8(255))).unwrap();
    core.add_instruction(
        &Target(1, RegisterType::U8),
        &Source::Immediate(Immediate::U8(1)),
        true,
        false,
    ).unwrap();
    assert!(core.flags.carry);
    core.load_instruction(&target, &Source::Immediate(Immediate::I8(0x0f))).unwrap();
    core.or_instruction(&target, &Source::Immediate(Immediate::I8(-128))).unwrap();
    assert_eq!(core.registers[1].value, Value::I8(-113));
    assert!(core.flags.negative);
    assert!(!core.flags.zero);
    assert!(core.flags.carry);
    core.xor_instruction(&target, &Source::Immediate(Immediate::I8(-113))).unwrap();
    assert_eq!(core.registers[1].value, Value::I8(0));
    assert!(core.flags.zero);
    assert!(!core.flags.negative);
    assert!(core.flags.carry);
    core.not_instruction(&target).unwrap();
    assert_eq!(core.registers[1].value, Value::I8(-1));
    core.shift_right_instruction(&target, &Source::Immediate(Immediate::I8(3))).unwrap();
    assert_eq!(core.registers[1].value, Value::I8(-1));
    core.shift_left_instruction(&target, &Source::Immediate(Immediate::I8(7))).unwrap();
    assert_eq!(core.registers[1].value, Value::I8(-128));
    core.and_instruction(&target, &Source::Immediate(Immediate::I8(0x7f))).unwrap();
    assert_eq!(core.registers[1].value, Value::I8(0));
    assert!(core.flags.carry);
}

#[test]
fn the_carry_flag_is_added_in_where_asked() {
    let target = Target(1, RegisterType::U8);
    let mut core = Core::default();
    core.load_instruction(&target, &Source::Immediate(Immediate::U8(200))).unwrap();
    core.add_instruction(&target, &Source::Immediate(Immediate::U8(100)), true, false).unwrap();
    assert_eq!(core.registers[1].value, Value::U8(44));
    assert!(core.flags.carry);
    core.add_instruction(&target, &Source::Immediate(Immediate::U8(1)), true, true).unwrap();
    assert_eq!(core.registers[1].value, Value::U8(46));
    assert!(!core.flags.carry);
    core.add_instruction(&target, &Source::Immediate(Immediate::U8(1)), true, true).unwrap();
    assert_eq!(core.registers[1].value, Value::U8(47));
    core.load_instruction(&target, &Source::Immediate(Immediate::U8(0))).unwrap();
    core.sub_instruction(&target, &Source::Immediate(Immediate::U8(1)), true, false).unwrap();
    assert_eq!(core.registers[1].value, Value::U8(255));
    assert!(core.flags.carry);
    core.sub_instruction(&target, &Source::Immediate(Immediate::U8(5)), true, true).unwrap();
    assert_eq!(core.registers[1].value, Value::U8(249));
    assert!(!core.flags.carry);
}

#[test]
fn a_carry_that_wraps_the_sum_again_counts_as_overflow() {
    let target = Target(1, RegisterType::U8);
    let mut core = Core::default();
    core.load_instruction(&target, &Source::Immediate(Immediate::U8(255))).unwrap();
    core.add_instruction(&target, &Source::Immediate(Immediate::U8(1)), true, false).unwrap();
    assert!(core.flags.carry);
    core.load_instruction(&target, &Source::Immediate(Immediate::U8(255))).unwrap();
    let result = core.add_instruction(&target, &Source::Immediate(Immediate::U8(0)), false, true);
    assert!(matches!(result, Err(Fault::Overflow)));
    assert_eq!(core.registers[1].value, Value::U8(255));
}

#[test]
fn arithmetic_keeps_the_type_of_its_target() {
    let mut core = Core::default();
    let target = Target(3, RegisterType::I16);
    core.load_instruction(&target, &Source::Immediate(Immediate::I16(-7))).unwrap();
    core.mul_instruction(&target, &Source::Immediate(Immediate::I16(3)), false).unwrap();
    assert_eq!(core.registers[3].value, Value::I16(-21));
    core.div_instruction(&target, &Source::Immediate(Immediate::I16(2)), false).unwrap();
    assert_eq!(core.registers[3].value, Value::I16(-10));
    assert!(core.flags.negative);
    core.mod_instruction(&target, &Source::Immediate(Immediate::I16(3)), false).unwrap();
    assert_eq!(core.registers[3].value, Value::I16(-1));
    core.sub_instruction(&target, &Source::Immediate(Immediate::I16(-1)), false, false).unwrap();
    assert_eq!(core.registers[3].value, Value::I16(0));
    assert!(core.flags.zero);
    let result = core.div_instruction(&target, &Source::Immediate(Immediate::I16(0)), true);
    assert!(matches!(result, Err(Fault::DivisionByZero)));
}

#[test]
fn the_quotient_of_the_least_number_by_minus_one_wraps() {
    let mut core = Core::default();
    let target = Target(3, RegisterType::I8);
    core.load_instruction(&target, &Source::Immediate(Immediate::I8(-128))).unwrap();
    let result = core.div_instruction(&target, &Source::Immediate(Immediate::I8(-1)), false);
    assert!(matches!(result, Err(Fault::Overflow)));
    core.div_instruction(&target, &Source::Immediate(Immediate::I8(-1)), true).unwrap();
    assert_eq!(core.registers[3].value, Value::I8(-128));
    assert!(core.flags.carry);
}

#[test]
fn a_register_is_read_as_the_type_that_is_asked_for() {
    let mut core = Core::default();
    core.load_instruction(&Target(1, RegisterType::I8), &Source::Immediate(Immediate::I8(-1))).unwrap();
    core.load_instruction(&Target(2, RegisterType::U16), &Source::Register(1, RegisterType::U16)).unwrap();
    assert_eq!(core.registers[2].value, Value::U16(0xffff));
    core.load_instruction(&Target(3, RegisterType::Reference), &Source::Register(2, RegisterType::U64)).unwrap();
    assert_eq!(core.registers[3].value, Value::U64(0xffff));
    core.load_instruction(&Target(4, RegisterType::U64), &Source::Register(3, RegisterType::Reference)).unwrap();
    assert_eq!(core.registers[4].value, Value::MemoryRef(0xffff));
    let result = core.load_instruction(
        &Target(5, RegisterType::U8),
        &Source::Register(4, RegisterType::U8),
    );
    assert!(matches!(result, Err(Fault::InvalidOperation(_))));
}

#[test]
fn lists_are_created_read_and_written() {
    let main = vec![
        Instruction::CreateList(Target(8, RegisterType::Reference), constant(3)),
        Instruction::ListStore(from(8), constant(1), constant(42)),
        Instruction::ListAccess(reg(1), from(8), constant(1)),
        Instruction::ListAccess(reg(2), from(8), constant(0)),
        Instruction::ListLength(reg(3), Source::Register(8, RegisterType::Reference)),
        Instruction::ListAccess(reg(4), from(8), constant(3)),
    ];
    let module = module_of(vec![bytecode("main", main)], vec![]);
    let mut machine = machine();
    assert!(matches!(run(&mut machine, &module), Err(Fault::IndexOutOfBounds)));
    assert_eq!(register(&machine, 1), Value::U64(42));
    assert_eq!(register(&machine, 2), Value::U64(0));
    assert_eq!(register(&machine, 3), Value::U64(3));
    assert!(matches!(register(&machine, 8), Value::MemoryRef(_)));
}

#[test]
fn stack_instructions_reach_the_frames_of_the_callers() {
    let callee = vec![
        Instruction::Push(constant(7)),
        Instruction::Push(constant(8)),
        Instruction::StackDeref(reg(1), constant(0), constant(8)),
        Instruction::StackDeref(reg(2), constant(1), constant(0)),
        Instruction::StackStore(constant(0), constant(8), constant(500)),
        Instruction::StackStore(constant(1), constant(8), constant(600)),
        Instruction::Pop(reg(5)),
        Instruction::Return(Condition::Always),
    ];
    let main = vec![
        Instruction::Push(constant(1)),
        Instruction::Push(constant(100)),
        call("callee"),
        Instruction::Pop(reg(3)),
        Instruction::Pop(reg(4)),
        Instruction::StackDeref(reg(6), constant(1), constant(0)),
    ];
    let module = module_of(vec![bytecode("main", main), bytecode("callee", callee)], vec![]);
    let mut machine = machine();
    assert!(matches!(run(&mut machine, &module), Err(Fault::StackFrameOutOfBounds)));
    assert_eq!(register(&machine, 1), Value::U64(100));
    assert_eq!(register(&machine, 2), Value::U64(7));
    assert_eq!(register(&machine, 3), Value::U64(500));
    assert_eq!(register(&machine, 4), Value::U64(1));
    assert_eq!(register(&machine, 5), Value::U64(600));
}

#[test]
fn a_stack_store_at_the_stack_pointer_or_below_the_bottom_is_refused() {
    let main = vec![
        Instruction::Push(constant(1)),
        Instruction::StackStore(constant(0), constant(8), constant(500)),
    ];
    let module = module_of(vec![bytecode("main", main)], vec![]);
    let mut machine = machine();
    assert!(matches!(run(&mut machine, &module), Err(Fault::StackOutOfBounds)));
}

#[test]
fn a_continuation_resumes_its_frame_at_the_recorded_start() {
    // The function `f` stores a continuation of its frame at its second
    // instruction. Invoked, the frame starts there again, now as a
    // continuation, with its stack as it was when the continuation was
    // created.
    let f = vec![
        Instruction::Push(constant(11)),
        Instruction::CreateContinuation(reg(0)),
        Instruction::Goto(JumpTarget::Relative(2), Condition::InContinuation),
        Instruction::Return(Condition::Always),
        Instruction::Pop(reg(1)),
        Instruction::Add(reg(1), constant(1), false, false),
        Instruction::Push(from(1)),
        Instruction::Return(Condition::Always),
    ];
    let main = vec![
        call("f"),
        Instruction::Load(reg(10), from(0)),
        Instruction::Call(CallTarget::Continuation(from(10)), Condition::Always),
        Instruction::Load(reg(11), from(1)),
        Instruction::Call(CallTarget::Continuation(from(10)), Condition::Always),
        Instruction::Load(reg(12), from(1)),
        Instruction::Call(CallTarget::Continuation(constant(99)), Condition::Always),
    ];
    let module = module_of(vec![bytecode("main", main), bytecode("f", f)], vec![]);
    let mut machine = machine();
    match run(&mut machine, &module) {
        Err(Fault::ContinuationNotFound(index)) => assert_eq!(index, 99),
        other => panic!("the program gave {:?}", other.map(|_| ())),
    }
    assert_eq!(register(&machine, 10), Value::U64(0));
    assert_eq!(register(&machine, 11), Value::U64(12));
    assert_eq!(register(&machine, 12), Value::U64(13));
}

#[test]
fn an_effect_that_nothing_catches_ends_the_program() {
    let main = vec![call("raise"), Instruction::Return(Condition::Always)];
    let module = module_of(vec![bytecode("main", main), native("raise", 1)], vec![]);
    let mut machine = machine();
    call_main(&mut machine, &module).unwrap();
    let status = call_bytecode_function(&mut machine, &module, 10).unwrap();
    assert!(matches!(status, DriverStatus::CallNative(1)));
    let status =
        call_native_function(&mut machine, InstructionResult::Unwind("oops".to_string())).unwrap();
    match status {
        DriverStatus::Done(Completion::Unwound(effect)) => assert_eq!(effect, "oops"),
        _ => panic!("the program went on"),
    }
    assert_eq!(machine.backtrace.len(), 2);
    assert_eq!(machine.backtrace.get_unwind_levels(), 2);
    machine.backtrace.remove_unwind_levels();
    assert_eq!(machine.backtrace.len(), 0);
}

#[test]
fn a_native_function_may_not_return_or_call() {
    let main = vec![call("bad"), Instruction::Return(Condition::Always)];
    let module = module_of(vec![bytecode("main", main), native("bad", 1)], vec![]);
    let mut machine = machine();
    call_main(&mut machine, &module).unwrap();
    call_bytecode_function(&mut machine, &module, 10).unwrap();
    let result = call_native_function(&mut machine, InstructionResult::Return);
    assert!(matches!(result, Err(Fault::InvalidOperation(_))));
    let status = call_native_function(&mut machine, InstructionResult::Stop).unwrap();
    assert!(matches!(status, DriverStatus::Done(Completion::Stopped)));
    assert_eq!(machine.backtrace.len(), 0);
}

#[test]
fn a_run_stops_when_its_steps_are_used_up() {
    let main = vec![Instruction::Goto(JumpTarget::Relative(0), Condition::Always)];
    let module = module_of(vec![bytecode("main", main)], vec![]);
    let mut machine = machine();
    call_main(&mut machine, &module).unwrap();
    let status = call_bytecode_function(&mut machine, &module, 1000).unwrap();
    assert!(matches!(status, DriverStatus::Running));
    let status = call_bytecode_function(&mut machine, &module, 0).unwrap();
    assert!(matches!(status, DriverStatus::Running));
    assert_eq!(machine.backtrace.len(), 1);
}

#[test]
fn a_stack_level_that_is_no_index_is_invalid() {
    let main = vec![Instruction::StackDeref(
        reg(1),
        Source::Immediate(Immediate::I64(-1)),
        constant(0),
    )];
    let module = module_of(vec![bytecode("main", main)], vec![]);
    let mut machine = machine();
    assert!(matches!(run(&mut machine, &module), Err(Fault::InvalidStackLevel)));
    let main = vec![
        Instruction::Push(constant(1)),
        Instruction::StackStore(Source::Immediate(Immediate::F32(0)), constant(1), constant(0)),
    ];
    let module = module_of(vec![bytecode("main", main)], vec![]);
    let mut machine = self::machine();
    assert!(matches!(run(&mut machine, &module), Err(Fault::InvalidStackLevel)));
}

#[test]
fn arithmetic_on_floating_point_registers_is_left_to_the_host() {
    let target = Target(1, RegisterType::F64);
    let mut core = Core::default();
    core.load_instruction(&target, &Source::Immediate(Immediate::F64(1.5f64.to_bits()))).unwrap();
    let result = core.add_instruction(
        &target,
        &Source::Immediate(Immediate::F64(2.0f64.to_bits())),
        false,
        false,
    );
    assert!(matches!(result, Err(Fault::InvalidOperation(_))));
    assert_eq!(core.registers[1].value, Value::F64(1.5f64.to_bits()));
    let sum = Value::F64((1.5f64 + 2.0f64).to_bits());
    core.finish_arithmetic(&target, sum, false, false).unwrap();
    assert_eq!(core.registers[1].value, Value::F64(3.5f64.to_bits()));
    assert!(!core.flags.zero);
    assert!(!core.flags.negative);
    assert!(!core.flags.carry);
    core.compare_instruction(
        &target,
        &Source::Immediate(Immediate::F64(f64::NAN.to_bits())),
        &ComparisonType::GreaterThanOrEqual,
    ).unwrap();
    assert_eq!(core.flags.comparison, Comparison::LessThan);
    core.compare_instruction(
        &target,
        &Source::Immediate(Immediate::F64(3.5f64.to_bits())),
        &ComparisonType::Equal,
    ).unwrap();
    assert_eq!(core.flags.comparison, Comparison::Equal);
}

#[test]
fn a_machine_knows_whether_it_runs_or_waits() {
    let main = vec![call("native"), Instruction::Return(Condition::Always)];
    let module = module_of(vec![bytecode("main", main), native("native", 0)], vec![]);
    let mut machine = machine();
    assert!(!machine.is_running());
    assert!(!machine.is_waiting());
    call_main(&mut machine, &module).unwrap();
    assert!(machine.is_running());
    call_bytecode_function(&mut machine, &module, 10).unwrap();
    assert!(machine.is_waiting());
    assert!(!machine.is_running());
    call_native_function(&mut machine, InstructionResult::Continue).unwrap();
    assert!(machine.is_running());
    let status = call_bytecode_function(&mut machine, &module, 10).unwrap();
    assert!(matches!(status, DriverStatus::Done(Completion::Returned)));
    assert!(!machine.is_running());
}
