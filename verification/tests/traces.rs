use register_vm::backtrace::decimal_text;
use register_vm::backtrace::BacktraceEntry;
use register_vm::backtrace::BacktraceInfo;
use register_vm::program::function::FunctionPath;

fn entry(name: &str) -> BacktraceEntry {
    BacktraceEntry::new(FunctionPath::from_str(name), None, None)
}

#[test]
fn entries_keep_what_they_are_given() {
    let entry = BacktraceEntry::new(FunctionPath::from_str("std::io::print"), Some(3), Some(14));
    assert_eq!(entry.get_function_name(), "std::io::print");
    assert_eq!(entry.get_line(), Some(3));
    assert_eq!(entry.get_column(), Some(14));
    let bare = self::entry("main");
    assert_eq!(bare.get_function_name(), "main");
    assert_eq!(bare.get_line(), None);
    assert_eq!(bare.get_column(), None);
}

#[test]
fn a_trace_is_a_stack_of_entries() {
    let mut trace = BacktraceInfo::new();
    assert_eq!(trace.len(), 0);
    assert!(trace.pop().is_none());
    assert!(trace.get(0).is_none());
    trace.push(entry("main"));
    trace.push(entry("f"));
    assert_eq!(trace.len(), 2);
    assert_eq!(trace.get(0).unwrap().get_function_name(), "main");
    assert_eq!(trace.get(1).unwrap().get_function_name(), "f");
    assert!(trace.get(2).is_none());
    assert_eq!(trace.pop().unwrap().get_function_name(), "f");
    assert_eq!(trace.len(), 1);
}

#[test]
fn the_row_and_column_go_to_the_innermost_entry() {
    let mut trace = BacktraceInfo::new();
    trace.set_row_column(1, 2);
    assert_eq!(trace.len(), 0);
    trace.push(entry("main"));
    trace.push(entry("f"));
    trace.set_row_column(10, 20);
    assert_eq!(trace.get(1).unwrap().get_line(), Some(10));
    assert_eq!(trace.get(1).unwrap().get_column(), Some(20));
    assert_eq!(trace.get(1).unwrap().get_function_name(), "f");
    assert_eq!(trace.get(0).unwrap().get_line(), None);
}

#[test]
fn unwinding_truncates_the_trace_in_one_step() {
    let mut trace = BacktraceInfo::new();
    for name in ["main", "a", "b", "c", "d"] {
        trace.push(entry(name));
    }
    trace.increment_unwind_levels();
    trace.increment_unwind_levels();
    trace.increment_unwind_levels();
    assert_eq!(trace.len(), 5);
    assert_eq!(trace.get_unwind_levels(), 3);
    trace.remove_unwind_levels();
    assert_eq!(trace.len(), 2);
    assert_eq!(trace.get_unwind_levels(), 0);
    assert_eq!(trace.get(1).unwrap().get_function_name(), "a");
    trace.remove_unwind_levels();
    assert_eq!(trace.len(), 2);
}

#[test]
fn unwinding_more_frames_than_the_trace_holds_empties_it() {
    let mut trace = BacktraceInfo::new();
    trace.push(entry("main"));
    trace.increment_unwind_levels();
    trace.increment_unwind_levels();
    trace.remove_unwind_levels();
    assert_eq!(trace.len(), 0);
    assert_eq!(trace.get_unwind_levels(), 0);
}

#[test]
fn numbers_are_written_in_decimal() {
    for number in [0usize, 1, 9, 10, 11, 99, 100, 101, 12345, 1_000_000, usize::MAX] {
        assert_eq!(decimal_text(number), format!("{}", number));
    }
}

#[test]
fn entries_are_shown_with_line_and_column() {
    let path = || FunctionPath::from_str("std::io::print");
    assert_eq!(BacktraceEntry::new(path(), None, None).to_string(), "std::io::print");
    assert_eq!(BacktraceEntry::new(path(), Some(3), None).to_string(), "std::io::print:3");
    assert_eq!(BacktraceEntry::new(path(), Some(3), Some(14)).to_string(), "std::io::print:3:14");
    assert_eq!(BacktraceEntry::new(path(), None, Some(14)).to_string(), "std::io::print");
    assert_eq!(BacktraceEntry::new(path(), Some(0), Some(0)).to_string(), "std::io::print:0:0");
}

#[test]
fn a_trace_is_shown_one_entry_per_line() {
    let mut trace = BacktraceInfo::new();
    assert_eq!(trace.to_string(), "");
    trace.push(entry("main"));
    trace.push(BacktraceEntry::new(FunctionPath::from_str("a::b"), Some(12), Some(7)));
    assert_eq!(trace.to_string(), "main\na::b:12:7\n");
}
