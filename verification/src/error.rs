use vstd::prelude::*;

verus! {

/// Every failure the debugger core can report.
///
/// Resolution errors (`NoDebugSymbols`, `NoMainFunction`, `BaseAddressNotFound`)
/// are fatal to starting a session; breakpoint protocol errors (`AlreadyBroken`,
/// `UnknownBreakpoint`) abort the operation and leave all state unchanged;
/// `Trace` carries the OS error number of a failed tracing call.
#[derive(Clone, Copy, Debug, PartialEq, Eq, Structural)]
pub enum AppError {
    /// The object file carries no debug information.
    NoDebugSymbols,
    /// No symbol resolving to an in-project entry thunk was found.
    NoMainFunction,
    /// No readable mapping of the executable appears in the mapping table.
    BaseAddressNotFound,
    /// A breakpoint already occupies the requested runtime address.
    AlreadyBroken,
    /// No breakpoint is registered at the given runtime address.
    UnknownBreakpoint,
    /// The executable's bytes could not be parsed as an object file.
    ObjectRead,
    /// The debug-line lookup itself failed.
    SymbolLookup,
    /// The diagnostic disassembler could not be built.
    Disassembler,
    /// A tracing call failed with the given OS error number.
    Trace(i32),
}

} // verus!
