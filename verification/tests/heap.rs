use register_vm::machine::Fault;
use register_vm::memory::Memory;
use register_vm::memory::MemoryObject;
use register_vm::program::Module;
use register_vm::program::StringTablePath;
use register_vm::value::Value;
use register_vm::value::ValueType;

fn handle_of(value: Value) -> u64 {
    match value {
        Value::MemoryRef(handle) => handle,
        other => panic!("{:?} is no memory reference", other),
    }
}

fn module_with_strings(strings: Vec<&str>) -> Module {
    Module::new("", Vec::new(), strings.into_iter().map(|s| s.to_string()).collect(), Vec::new())
}

#[test]
fn the_null_handle_refers_to_nothing() {
    let memory = Memory::new();
    assert!(matches!(memory.get(0), Err(Fault::NullPointerReference)));
    assert!(matches!(memory.access_list(0, 0), Err(Fault::NullPointerReference)));
    assert!(matches!(memory.get_list_length(0), Err(Fault::NullPointerReference)));
}

#[test]
fn an_unknown_handle_is_an_invalid_reference() {
    let mut memory = Memory::new();
    assert!(matches!(memory.get(12345), Err(Fault::InvalidReference)));
    assert!(matches!(memory.access_list(12345, 0), Err(Fault::InvalidReference)));
    assert!(matches!(memory.store_list(12345, 0, Value::U8(1)), Err(Fault::InvalidReference)));
    let module = module_with_strings(vec![]);
    assert!(matches!(memory.get_string(12345, &module), Err(Fault::InvalidReference)));
}

#[test]
fn allocation_gives_fresh_handles_that_are_not_null() {
    let mut memory = Memory::new();
    let mut handles = Vec::new();
    for _ in 0..100 {
        let handle = memory.allocate(MemoryObject::Null).unwrap();
        assert_ne!(handle, 0);
        assert!(!handles.contains(&handle));
        handles.push(handle);
    }
    for handle in handles {
        assert!(matches!(memory.get(handle), Ok(MemoryObject::Null)));
    }
}

#[test]
fn a_handle_is_taken_only_once() {
    let mut memory = Memory::new();
    assert!(matches!(memory.allocate_at(5, MemoryObject::Null), Ok(5)));
    assert!(matches!(
        memory.allocate_at(5, MemoryObject::String("again".to_string())),
        Err(MemoryObject::String(_))
    ));
    assert!(matches!(memory.allocate_at(0, MemoryObject::Null), Err(MemoryObject::Null)));
    assert!(matches!(memory.get(5), Ok(MemoryObject::Null)));
}

#[test]
fn a_null_object_faults_as_a_null_pointer() {
    let mut memory = Memory::new();
    let handle = memory.allocate(MemoryObject::Null).unwrap();
    assert!(matches!(memory.access_list(handle, 0), Err(Fault::NullPointerReference)));
    assert!(matches!(memory.get_list_length(handle), Err(Fault::NullPointerReference)));
    assert!(matches!(
        memory.store_list(handle, 0, Value::U8(1)),
        Err(Fault::NullPointerReference)
    ));
    let module = module_with_strings(vec![]);
    assert!(matches!(memory.get_string(handle, &module), Err(Fault::NullPointerReference)));
}

#[test]
fn lists_hold_zeros_of_their_type() {
    let mut memory = Memory::new();
    let list = handle_of(memory.allocate_list(3, ValueType::I16).unwrap());
    assert_eq!(memory.get_list_length(list).unwrap(), Value::U64(3));
    for i in 0..3 {
        assert_eq!(memory.access_list(list, i).unwrap(), Value::I16(0));
    }
    assert!(matches!(memory.access_list(list, 3), Err(Fault::IndexOutOfBounds)));
    let empty = handle_of(memory.allocate_list(0, ValueType::U8).unwrap());
    assert_eq!(memory.get_list_length(empty).unwrap(), Value::U64(0));
    assert!(matches!(memory.access_list(empty, 0), Err(Fault::IndexOutOfBounds)));
}

#[test]
fn storing_into_a_list_changes_one_element() {
    let mut memory = Memory::new();
    let list = handle_of(memory.allocate_list(3, ValueType::U64).unwrap());
    let other = handle_of(memory.allocate_list(2, ValueType::U64).unwrap());
    memory.store_list(list, 1, Value::U64(9)).unwrap();
    assert_eq!(memory.access_list(list, 0).unwrap(), Value::U64(0));
    assert_eq!(memory.access_list(list, 1).unwrap(), Value::U64(9));
    assert_eq!(memory.access_list(list, 2).unwrap(), Value::U64(0));
    assert_eq!(memory.access_list(other, 1).unwrap(), Value::U64(0));
    assert!(matches!(memory.store_list(list, 3, Value::U64(1)), Err(Fault::IndexOutOfBounds)));
    assert_eq!(memory.get_list_length(list).unwrap(), Value::U64(3));
}

#[test]
fn what_is_no_list_is_an_invalid_reference_for_list_operations() {
    let mut memory = Memory::new();
    let string = handle_of(memory.allocate_string("text").unwrap());
    assert!(matches!(memory.access_list(string, 0), Err(Fault::InvalidReference)));
    assert!(matches!(memory.get_list_length(string), Err(Fault::InvalidReference)));
    assert!(matches!(
        memory.store_list(string, 0, Value::U8(1)),
        Err(Fault::InvalidReference)
    ));
    let module = module_with_strings(vec![]);
    assert_eq!(memory.get_string(string, &module).unwrap(), "text");
}

#[test]
fn raw_buffers_are_zeroed() {
    let mut memory = Memory::new();
    let pointer = handle_of(memory.allocate_pointer(3, ValueType::U32).unwrap());
    match memory.get(pointer).unwrap() {
        MemoryObject::Pointer(buffer, elements, typ) => {
            assert_eq!(buffer, &vec![0u8; 12]);
            assert_eq!(*elements, 3);
            assert_eq!(*typ, ValueType::U32);
        },
        other => panic!("{:?} is no buffer", other),
    }
    assert!(matches!(
        memory.allocate_pointer(usize::MAX, ValueType::U64),
        Err(Fault::MemoryError(_))
    ));
}

#[test]
fn strings_are_read_and_concatenated() {
    let mut memory = Memory::new();
    let module = module_with_strings(vec!["table"]);
    let left = handle_of(memory.allocate_string("Hello, ").unwrap());
    let right = handle_of(memory.allocate_string("world!").unwrap());
    let both = handle_of(memory.concatenate_strings(left, right, &module).unwrap());
    assert_eq!(memory.get_string(both, &module).unwrap(), "Hello, world!");
    assert_eq!(memory.get_string(left, &module).unwrap(), "Hello, ");
    let entry = handle_of(memory.allocate_string_ref(&StringTablePath::from_str(""), 0).unwrap());
    let mixed = handle_of(memory.concatenate_strings(entry, right, &module).unwrap());
    assert_eq!(memory.get_string(mixed, &module).unwrap(), "tableworld!");
    assert!(matches!(
        memory.concatenate_strings(left, 999, &module),
        Err(Fault::InvalidReference)
    ));
    let list = handle_of(memory.allocate_list(1, ValueType::U8).unwrap());
    assert!(matches!(memory.get_string(list, &module), Err(Fault::InvalidString)));
    assert!(matches!(
        memory.concatenate_strings(list, left, &module),
        Err(Fault::InvalidString)
    ));
}

#[test]
fn interned_strings_keep_their_handle() {
    let mut memory = Memory::new();
    let module = module_with_strings(vec!["zero", "one"]);
    let path = StringTablePath::from_str("");
    assert!(matches!(memory.get_string_ref_from_path(&path, 0), Err(Fault::InvalidReference)));
    let zero = memory.allocate_string_ref(&path, 0).unwrap();
    let one = memory.allocate_string_ref(&path, 1).unwrap();
    assert_ne!(zero, one);
    assert_eq!(memory.get_string_ref_from_path(&path, 0).unwrap(), zero);
    assert_eq!(memory.get_string_ref_from_path(&path, 1).unwrap(), one);
    assert_eq!(memory.get_string_ref_from_path(&path, 0).unwrap(), zero);
    assert_eq!(memory.get_string(handle_of(zero), &module).unwrap(), "zero");
    assert_eq!(memory.get_string(handle_of(one), &module).unwrap(), "one");
    assert!(matches!(memory.get_string_ref_from_path(&path, 2), Err(Fault::InvalidReference)));
    assert!(matches!(
        memory.get_string_ref_from_path(&StringTablePath::from_str("other::"), 0),
        Err(Fault::InvalidReference)
    ));
    let missing = handle_of(memory.allocate_string_ref(&path, 7).unwrap());
    assert!(matches!(memory.get_string(missing, &module), Err(Fault::InvalidReference)));
}

#[test]
fn interning_a_string_again_gives_it_the_new_handle() {
    let mut memory = Memory::new();
    let path = StringTablePath::from_str("");
    let first = memory.allocate_string_ref(&path, 0).unwrap();
    let second = memory.allocate_string_ref(&path, 0).unwrap();
    assert_ne!(first, second);
    assert_eq!(memory.get_string_ref_from_path(&path, 0).unwrap(), second);
}

#[test]
fn deallocation_frees_what_a_list_refers_to() {
    let mut memory = Memory::new();
    let inner = handle_of(memory.allocate_list(1, ValueType::U64).unwrap());
    let text = handle_of(memory.allocate_string("kept?").unwrap());
    let apart = handle_of(memory.allocate_string("apart").unwrap());
    let outer = handle_of(memory.allocate_list(4, ValueType::U64).unwrap());
    memory.store_list(outer, 0, Value::ArrayRef(inner)).unwrap();
    memory.store_list(outer, 1, Value::StringRef(text)).unwrap();
    memory.store_list(outer, 2, Value::U64(apart)).unwrap();
    memory.store_list(outer, 3, Value::MemoryRef(424242)).unwrap();
    memory.store_list(inner, 0, Value::MemoryRef(outer)).unwrap();
    memory.deallocate(outer).unwrap();
    assert!(matches!(memory.get(outer), Err(Fault::InvalidReference)));
    assert!(matches!(memory.get(inner), Err(Fault::InvalidReference)));
    assert!(matches!(memory.get(text), Err(Fault::InvalidReference)));
    assert!(matches!(memory.get(apart), Ok(MemoryObject::String(_))));
    memory.deallocate(outer).unwrap();
    memory.deallocate(0).unwrap();
    assert!(matches!(memory.get(apart), Ok(MemoryObject::String(_))));
}

#[test]
fn every_string_of_a_module_tree_is_interned() {
    let io = Module::new("io", Vec::new(), vec!["io zero".to_string(), "io one".to_string()], Vec::new());
    let std = Module::new("std", Vec::new(), Vec::new(), vec![io]);
    let module = Module::new("", Vec::new(), vec!["zero".to_string()], vec![std]);
    let mut memory = Memory::new();
    let kept = handle_of(memory.allocate_string("kept").unwrap());
    module.add_strings_to_memory(&mut memory).unwrap();
    let root = StringTablePath::from_str("");
    let io = StringTablePath::from_str("std::io::");
    let zero = handle_of(memory.get_string_ref_from_path(&root, 0).unwrap());
    let io_zero = handle_of(memory.get_string_ref_from_path(&io, 0).unwrap());
    let io_one = handle_of(memory.get_string_ref_from_path(&io, 1).unwrap());
    assert_eq!(memory.get_string(zero, &module).unwrap(), "zero");
    assert_eq!(memory.get_string(io_zero, &module).unwrap(), "io zero");
    assert_eq!(memory.get_string(io_one, &module).unwrap(), "io one");
    assert_eq!(memory.get_string(kept, &module).unwrap(), "kept");
    assert!(matches!(memory.get_string_ref_from_path(&root, 1), Err(Fault::InvalidReference)));
    assert!(matches!(
        memory.get_string_ref_from_path(&StringTablePath::from_str("std::"), 0),
        Err(Fault::InvalidReference)
    ));
    assert!(matches!(memory.get(zero), Ok(MemoryObject::StringTableRef(_, 0))));
}

#[test]
fn a_module_tree_without_strings_leaves_the_heap_as_it_is() {
    let io = Module::new("io", Vec::new(), Vec::new(), Vec::new());
    let std = Module::new("std", Vec::new(), Vec::new(), vec![io]);
    let module = Module::new("", Vec::new(), Vec::new(), vec![std]);
    let mut memory = Memory::new();
    let kept = handle_of(memory.allocate_string("kept").unwrap());
    module.add_strings_to_memory(&mut memory).unwrap();
    assert_eq!(memory.reference_table.len(), 1);
    assert!(memory.string_lookup_table.is_empty());
    assert_eq!(memory.get_string(kept, &module).unwrap(), "kept");
    let mut empty = Memory::new();
    Module::default().add_strings_to_memory(&mut empty).unwrap();
    assert!(empty.reference_table.is_empty());
    assert!(empty.string_lookup_table.is_empty());
}

#[test]
fn an_interned_handle_is_never_the_null_handle() {
    let module = Module::new(
        "",
        Vec::new(),
        (0..50).map(|i| format!("string {}", i)).collect(),
        Vec::new(),
    );
    let mut memory = Memory::new();
    module.add_strings_to_memory(&mut memory).unwrap();
    let root = StringTablePath::from_str("");
    for index in 0..50u64 {
        let handle = handle_of(memory.get_string_ref_from_path(&root, index).unwrap());
        assert_ne!(handle, 0);
        assert_eq!(memory.get_string(handle, &module).unwrap(), format!("string {}", index));
    }
}
