use register_vm::instruction::Instruction;
use register_vm::machine::Fault;
use register_vm::machine::Register;
use register_vm::program::function::FunctionPath;
use register_vm::stack_frame::delimited_continuation::ContinuationStore;
use register_vm::stack_frame::delimited_continuation::DelimitedContinuation;
use register_vm::stack_frame::frame::Frame;
use register_vm::stack_frame::REGISTER_COUNT;
use register_vm::value::Value;
use register_vm::value::ValueType;
use std::sync::Arc;

fn frame_of(name: &str, instructions: Vec<Instruction>) -> Frame {
    Frame::new(FunctionPath::from_str(name), Arc::new(instructions))
}

#[test]
fn a_new_frame_is_at_the_start_with_an_empty_stack() {
    let frame = frame_of("f", vec![Instruction::NoOp, Instruction::Halt]);
    assert_eq!(frame.get_program_counter(), 0);
    assert_eq!(frame.get_stack_pointer(), 0);
    assert_eq!(frame.get_function_name().to_string(), "f");
    assert!(matches!(frame.get_instruction(), Some(Instruction::NoOp)));
    assert_eq!(frame.get_instructions().len(), 2);
    assert!(!frame.is_continuation());
}

#[test]
fn push_then_pop_gives_the_value_back() {
    let mut frame = frame_of("f", vec![]);
    frame.push(Value::U32(0xdead_beef)).unwrap();
    assert_eq!(frame.get_stack_pointer(), 4);
    assert_eq!(frame.pop(ValueType::U32).unwrap(), Value::U32(0xdead_beef));
    assert_eq!(frame.get_stack_pointer(), 0);
}

#[test]
fn push_then_pop_as_another_type_of_the_same_width_keeps_the_bytes() {
    let mut frame = frame_of("f", vec![]);
    frame.push(Value::I16(-2)).unwrap();
    let popped = frame.pop(ValueType::U16).unwrap();
    assert_eq!(popped, Value::U16(0xfffe));
    assert_eq!(popped.to_bytes(), Value::I16(-2).to_bytes());
    frame.push(Value::F64(1.5f64.to_bits())).unwrap();
    let popped = frame.pop(ValueType::U64).unwrap();
    assert_eq!(popped.to_bytes(), 1.5f64.to_le_bytes().to_vec());
    frame.push(Value::U64(7)).unwrap();
    assert_eq!(frame.pop(ValueType::MemoryRef).unwrap(), Value::MemoryRef(7));
}

#[test]
fn the_stack_is_last_in_first_out() {
    let mut frame = frame_of("f", vec![]);
    frame.push(Value::U8(1)).unwrap();
    frame.push(Value::U64(2)).unwrap();
    frame.push(Value::I16(-3)).unwrap();
    assert_eq!(frame.get_stack_pointer(), 11);
    assert_eq!(frame.pop(ValueType::I16).unwrap(), Value::I16(-3));
    assert_eq!(frame.pop(ValueType::U64).unwrap(), Value::U64(2));
    assert_eq!(frame.pop(ValueType::U8).unwrap(), Value::U8(1));
    assert_eq!(frame.get_stack_pointer(), 0);
}

#[test]
fn the_stack_grows_past_its_inline_capacity() {
    let mut frame = frame_of("f", vec![]);
    for i in 0..100u64 {
        frame.push(Value::U64(i)).unwrap();
    }
    assert_eq!(frame.get_stack_pointer(), 800);
    for i in (0..100u64).rev() {
        assert_eq!(frame.pop(ValueType::U64).unwrap(), Value::U64(i));
    }
}

#[test]
fn a_pop_of_more_than_the_stack_holds_is_out_of_bounds() {
    let mut frame = frame_of("f", vec![]);
    assert!(matches!(frame.pop(ValueType::U8), Err(Fault::StackOutOfBounds)));
    frame.push(Value::U8(1)).unwrap();
    assert!(matches!(frame.pop(ValueType::U16), Err(Fault::StackOutOfBounds)));
    assert_eq!(frame.get_stack_pointer(), 1);
    assert_eq!(frame.pop(ValueType::U8).unwrap(), Value::U8(1));
}

#[test]
fn get_value_reads_at_an_offset_from_the_bottom() {
    let mut frame = frame_of("f", vec![]);
    frame.push(Value::U16(0x0102)).unwrap();
    frame.push(Value::U32(0x0a0b_0c0d)).unwrap();
    assert_eq!(frame.get_value(Value::U64(0), ValueType::U16).unwrap(), Value::U16(0x0102));
    assert_eq!(frame.get_value(Value::U64(2), ValueType::U32).unwrap(), Value::U32(0x0a0b_0c0d));
    assert_eq!(frame.get_value(Value::U8(1), ValueType::U8).unwrap(), Value::U8(0x01));
    assert_eq!(frame.get_value(Value::I32(2), ValueType::U16).unwrap(), Value::U16(0x0c0d));
    assert!(matches!(
        frame.get_value(Value::U64(3), ValueType::U32),
        Err(Fault::StackOutOfBounds)
    ));
    assert!(matches!(
        frame.get_value(Value::U64(6), ValueType::U8),
        Err(Fault::StackOutOfBounds)
    ));
    assert!(matches!(
        frame.get_value(Value::I64(-1), ValueType::U8),
        Err(Fault::InvalidStackOffset)
    ));
    assert!(matches!(
        frame.get_value(Value::F32(0), ValueType::U8),
        Err(Fault::InvalidStackOffset)
    ));
}

#[test]
fn set_value_writes_below_the_stack_pointer() {
    let mut frame = frame_of("f", vec![]);
    frame.push(Value::U32(0)).unwrap();
    frame.push(Value::U32(0)).unwrap();
    frame.set_value(Value::U64(4), Value::U32(0x1122_3344)).unwrap();
    frame.set_value(Value::U64(8 - 1), Value::U8(0x7f)).unwrap();
    assert_eq!(frame.get_stack_pointer(), 8);
    assert_eq!(frame.get_value(Value::U64(4), ValueType::U32).unwrap(), Value::U32(0x1122_3344));
    assert_eq!(frame.get_value(Value::U64(1), ValueType::U8).unwrap(), Value::U8(0x7f));
    assert_eq!(frame.pop(ValueType::U32).unwrap(), Value::U32(0x1122_3344));
    assert_eq!(frame.pop(ValueType::U32).unwrap(), Value::U32(0x0000_7f00));
}

#[test]
fn set_value_refuses_offsets_that_are_not_below_the_stack_pointer() {
    let mut frame = frame_of("f", vec![]);
    assert!(matches!(
        frame.set_value(Value::U64(0), Value::U8(1)),
        Err(Fault::StackOutOfBounds)
    ));
    frame.push(Value::U16(0)).unwrap();
    assert!(matches!(
        frame.set_value(Value::U64(2), Value::U8(1)),
        Err(Fault::StackOutOfBounds)
    ));
    assert!(matches!(
        frame.set_value(Value::I8(-1), Value::U8(1)),
        Err(Fault::InvalidStackOffset)
    ));
    frame.set_value(Value::U64(1), Value::U64(u64::MAX)).unwrap();
    assert_eq!(frame.get_stack_pointer(), 2);
    assert_eq!(frame.pop(ValueType::U16).unwrap(), Value::U16(0xff00));
}

#[test]
fn registers_are_restored_from_the_eighth_on() {
    let mut frame = frame_of("f", vec![]);
    let mut registers = [Register::default(); REGISTER_COUNT];
    for (i, register) in registers.iter_mut().enumerate() {
        register.value = Value::U64(i as u64);
    }
    frame.backup_registers(&registers);
    for register in registers.iter_mut() {
        register.value = Value::U64(1000);
    }
    frame.restore_registers(&mut registers);
    for (i, register) in registers.iter().enumerate() {
        if i < 8 {
            assert_eq!(register.value, Value::U64(1000));
        } else {
            assert_eq!(register.value, Value::U64(i as u64));
        }
    }
}

#[test]
fn restoring_without_a_backup_changes_nothing() {
    let frame = frame_of("f", vec![]);
    let mut registers = [Register::default(); REGISTER_COUNT];
    registers[9].value = Value::I8(-4);
    frame.restore_registers(&mut registers);
    assert_eq!(registers[9].value, Value::I8(-4));
    frame.restore_registers_for_gc(&mut registers);
    assert_eq!(registers[9].value, Value::I8(-4));
}

#[test]
fn the_scan_backup_restores_every_register() {
    let mut frame = frame_of("f", vec![]);
    let mut registers = [Register::default(); REGISTER_COUNT];
    registers[0].value = Value::U8(1);
    registers[31].value = Value::U8(2);
    frame.backup_registers_for_gc(&registers);
    registers[0].value = Value::U8(9);
    registers[31].value = Value::U8(9);
    frame.restore_registers_for_gc(&mut registers);
    assert_eq!(registers[0].value, Value::U8(1));
    assert_eq!(registers[31].value, Value::U8(2));
}

#[test]
fn the_program_counter_moves() {
    let mut frame = frame_of("f", vec![Instruction::NoOp, Instruction::Halt]);
    frame.increment_program_counter();
    assert_eq!(frame.get_program_counter(), 1);
    assert!(matches!(frame.get_instruction(), Some(Instruction::Halt)));
    frame.increment_program_counter();
    assert!(frame.get_instruction().is_none());
    frame.set_program_counter(7);
    assert_eq!(frame.get_program_counter(), 7);
    frame.reset_program_counter();
    assert_eq!(frame.get_program_counter(), 0);
}

#[test]
fn return_addresses_and_names() {
    let mut frame = frame_of("a::b", vec![Instruction::NoOp]);
    frame.increment_program_counter();
    let address = frame.create_return_address();
    assert_eq!(address.program_counter, 1);
    assert_eq!(address.function_name.to_string(), "a::b");
    frame.set_return_address(address);
    frame.set_function_name(FunctionPath::from_str("c"));
    assert_eq!(frame.get_function_name().to_string(), "c");
}

#[test]
fn a_copy_of_a_frame_is_independent() {
    let mut frame = frame_of("f", vec![Instruction::NoOp]);
    frame.push(Value::U8(1)).unwrap();
    let mut copy = frame.clone();
    copy.push(Value::U8(2)).unwrap();
    assert_eq!(frame.get_stack_pointer(), 1);
    assert_eq!(copy.get_stack_pointer(), 2);
    assert_eq!(copy.pop(ValueType::U8).unwrap(), Value::U8(2));
    assert_eq!(copy.pop(ValueType::U8).unwrap(), Value::U8(1));
    assert_eq!(frame.pop(ValueType::U8).unwrap(), Value::U8(1));
}

#[test]
fn the_store_numbers_continuations_in_order() {
    let mut store = ContinuationStore::new();
    assert_eq!(store.get_last_index(), None);
    assert_eq!(store.get(0), None);
    let slot = store.share_frame(frame_of("f", vec![]));
    assert_eq!(slot, 0);
    let first = DelimitedContinuation::new(slot, 3);
    store.store(first);
    assert_eq!(store.get_last_index(), Some(0));
    let second = DelimitedContinuation::new(slot, 5);
    store.store(second);
    assert_eq!(store.get_last_index(), Some(1));
    assert_eq!(store.get(0), Some(first));
    assert_eq!(store.get(1), Some(second));
    assert_eq!(store.get(2), None);
    assert_eq!(first.get_stack_frame(), 0);
    assert_eq!(first.get_start_program_counter(), 3);
    assert!(first.is_continuation());
    assert!(store.frame(&first).is_some());
    assert!(store.frame(&DelimitedContinuation::new(4, 0)).is_none());
}

#[test]
fn a_continuation_resets_its_frame_to_its_start() {
    let mut store = ContinuationStore::new();
    let mut frame = frame_of("f", vec![Instruction::NoOp, Instruction::NoOp, Instruction::Halt]);
    frame.push(Value::U8(5)).unwrap();
    frame.set_program_counter(1);
    let continuation = frame.make_continuation(&mut store);
    assert_eq!(continuation.get_start_program_counter(), 1);
    assert_eq!(continuation.get_stack_frame(), 0);
    assert_eq!(store.get_last_index(), None);
    store.store(continuation);
    frame.set_program_counter(2);
    assert_eq!(store.frame(&continuation).unwrap().get_program_counter(), 1);
    assert_eq!(store.frame(&continuation).unwrap().get_stack_pointer(), 1);
    store.frames[0].set_program_counter(2);
    assert!(store.reset_program_counter(&continuation));
    assert_eq!(store.frame(&continuation).unwrap().get_program_counter(), 1);
    assert_eq!(store.frame(&continuation).unwrap().get_stack_pointer(), 1);
    assert!(!store.reset_program_counter(&DelimitedContinuation::new(3, 0)));
}
