use cool::debugger::Debugger;
use cool::error::AppError;
use cool::source_files::SourceFiles;
use cool::symbols::find_main_symbol_address;

fn loader_for_own_image() -> addr2line::Loader {
    // the test binary itself is a readable ELF image
    addr2line::Loader::new("/proc/self/exe").expect("own image must load")
}

#[test]
fn unparseable_executable_reports_object_read() {
    let loader = loader_for_own_image();
    let sources = SourceFiles::new(b"/proj/".to_vec(), Vec::new());
    let garbage: Vec<u8> = vec![1, 2, 3, 4];
    let r = find_main_symbol_address(&garbage, &loader, &sources);
    assert_eq!(r, Err(AppError::ObjectRead));
}

#[test]
fn debugger_restore_without_breakpoint_reports_unknown() {
    let loader = loader_for_own_image();
    let mut debugger = Debugger::new(loader, 0x400000, i32::MAX).unwrap();
    let r = debugger.restore(0x400000);
    assert!(matches!(r, Err(AppError::UnknownBreakpoint)));
    assert!(debugger.breakpoints.is_empty());
}

#[test]
fn failed_tracing_call_reports_trace_error_and_keeps_the_map() {
    let loader = loader_for_own_image();
    // no tracee exists under this identifier: the memory read must fail
    let mut debugger = Debugger::new(loader, 0, i32::MAX).unwrap();
    let r = debugger.set_breakpoint(0x1000);
    assert!(matches!(r, Err(AppError::Trace(_))));
    assert!(debugger.breakpoints.is_empty());
}

#[test]
fn run_step_without_tracee_reports_trace_error() {
    let loader = loader_for_own_image();
    let mut debugger = Debugger::new(loader, 0, i32::MAX).unwrap();
    let r = debugger.run_step();
    assert!(matches!(r, Err(AppError::Trace(_))));
}
