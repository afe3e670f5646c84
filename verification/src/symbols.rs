//! Entry-point discovery: pick, from the object file's symbol table, the
//! address of the program's generated entry thunk — the first symbol, in
//! the table's stored order, whose resolved source file belongs to the
//! project source set and whose demangled name names the program's main
//! function.
//!
//! Object-file parsing, debug-line lookup and demangling are outside
//! collaborators, reached through the trusted wrappers below; the selection
//! itself is verified against `spec_select_from`.

use vstd::prelude::*;

use object::{Object, ObjectSymbol};

use crate::error::AppError;
use crate::source_files::SourceFiles;
use crate::text::{contains_bytes, contains_seq};

verus! {

/// A resolved source location, as debug information records it: any of the
/// three parts may be missing.
pub struct LineInfo {
    pub file: Option<Vec<u8>>,
    pub line: Option<u32>,
    pub column: Option<u32>,
}

/// One symbol-table entry, as stored: the raw (mangled) name if it is
/// readable, and the static (file-relative) address.
pub struct RawSymbol {
    pub name: Option<Vec<u8>>,
    pub address: u64,
}

/// One symbol with everything the chooser looks at: its static address,
/// its demangled name, and its resolved source location.
pub struct SymbolView {
    pub address: u64,
    pub demangled: Option<Vec<u8>>,
    pub location: Option<LineInfo>,
}

/// Declares addr2line::Loader to Verus: the opaque debug-line lookup
/// handle. Building one reads the executable from disk, so the caller
/// constructs it and the library only queries it.
#[verifier::external_type_specification]
#[verifier::external_body]
pub struct ExLoader(addr2line::Loader);

/// An opaque handle on a parsed object file. Verus refuses to declare
/// `object::File` itself (its generics carry an outside trait bound), so
/// the value is held behind this hidden struct and read only through the
/// trusted wrappers below.
#[verifier::external_body]
pub struct ObjectHandle<'d> {
    file: object::File<'d, &'d [u8]>,
}

/// Relies on object::File::parse: reads the object-file container
/// structure out of the raw executable bytes; no byte of the input is
/// touched otherwise.
#[verifier::external_body]
fn parse_object<'d>(bytes: &'d Vec<u8>) -> (r: Result<ObjectHandle<'d>, AppError>)
    ensures
        r matches Err(e) ==> e == AppError::ObjectRead,
{
    match object::File::parse(bytes.as_slice()) {
        Ok(file) => Ok(ObjectHandle { file }),
        Err(_) => Err(AppError::ObjectRead),
    }
}

/// Relies on object::Object::has_debug_symbols: whether the file carries
/// debug information.
#[verifier::external_body]
fn obj_has_debug_symbols<'d>(handle: &ObjectHandle<'d>) -> bool {
    handle.file.has_debug_symbols()
}

/// Relies on object::Object::symbols with object::ObjectSymbol::name and
/// `::address`: hands the symbol table out as plain values, in the
/// iterator's stored order. A symbol whose name bytes cannot be read keeps
/// its address and carries no name.
#[verifier::external_body]
fn obj_symbols<'d>(handle: &ObjectHandle<'d>) -> Vec<RawSymbol> {
    let mut out = Vec::new();
    for sym in handle.file.symbols() {
        let name = match sym.name() {
            Ok(n) => Some(n.as_bytes().to_vec()),
            Err(_) => None,
        };
        out.push(RawSymbol { name, address: sym.address() });
    }
    out
}

/// Relies on addr2line::Loader::find_location: the source file, line and
/// column the debug line table records for a static address, or `None`
/// where it records nothing.
#[verifier::external_body]
pub(crate) fn loader_find_location(loader: &addr2line::Loader, addr: u64) -> (r: Result<
    Option<LineInfo>,
    AppError,
>)
    ensures
        r matches Err(e) ==> e == AppError::SymbolLookup,
{
    match loader.find_location(addr) {
        Ok(Some(loc)) => {
            let file = match loc.file {
                Some(f) => Some(f.as_bytes().to_vec()),
                None => None,
            };
            Ok(Some(LineInfo { file, line: loc.line, column: loc.column }))
        },
        Ok(None) => Ok(None),
        Err(_) => Err(AppError::SymbolLookup),
    }
}

/// The demangled, printable form of a symbol name; it is a function of the
/// name's bytes alone.
pub uninterp spec fn demangled_of(name: Seq<u8>) -> Seq<u8>;

/// Relies on rustc_demangle::demangle: rewrites a mangled symbol name into
/// its readable form; a name that is not valid UTF-8 is kept as it is.
#[verifier::external_body]
fn demangle_bytes(name: &Vec<u8>) -> (r: Vec<u8>)
    ensures
        r@ == demangled_of(name@),
{
    match core::str::from_utf8(name.as_slice()) {
        Ok(s) => rustc_demangle::demangle(s).to_string().into_bytes(),
        Err(_) => name.clone(),
    }
}

/// The infix that marks a demangled name as the language's generated entry
/// thunk for the program's main function: `::main::`.
pub open spec fn entry_pattern() -> Seq<u8> {
    seq![58u8, 58u8, 109u8, 97u8, 105u8, 110u8, 58u8, 58u8]
}

/// A demangled name names the program's main function.
pub open spec fn is_entry_name(s: Seq<u8>) -> bool {
    contains_seq(s, entry_pattern())
}

/// Whether a demangled name names the program's main function.
pub fn name_is_entry(demangled: &Vec<u8>) -> (r: bool)
    ensures
        r == is_entry_name(demangled@),
{
    let mut needle: Vec<u8> = Vec::new();
    needle.push(58);
    needle.push(58);
    needle.push(109);
    needle.push(97);
    needle.push(105);
    needle.push(110);
    needle.push(58);
    needle.push(58);
    proof {
        assert(needle@ =~= entry_pattern());
    }
    contains_bytes(demangled, &needle)
}

/// Whether a raw symbol name, once demangled, names the program's main
/// function.
pub fn symbol_is_entry(mangled: &Vec<u8>) -> (r: bool)
    ensures
        r == is_entry_name(demangled_of(mangled@)),
{
    let demangled = demangle_bytes(mangled);
    name_is_entry(&demangled)
}

/// A symbol is a breakpoint candidate: its location is known, names a file
/// of the project source set, and its demangled name marks the entry thunk.
pub open spec fn spec_view_matches(v: SymbolView, sources: SourceFiles) -> bool {
    &&& v.location matches Some(loc) && loc.file matches Some(f) && sources.has_name(f@)
    &&& v.demangled matches Some(d) && is_entry_name(d@)
}

/// The address of the first matching symbol at or after index `i`.
pub open spec fn spec_select_from(views: Seq<SymbolView>, sources: SourceFiles, i: int) -> Option<
    u64,
>
    decreases views.len() - i,
    when 0 <= i
{
    if i >= views.len() {
        None
    } else if spec_view_matches(views[i], sources) {
        Some(views[i].address)
    } else {
        spec_select_from(views, sources, i + 1)
    }
}

fn view_matches(v: &SymbolView, sources: &SourceFiles) -> (r: bool)
    ensures
        r == spec_view_matches(*v, *sources),
{
    let in_project = match &v.location {
        Some(loc) => match &loc.file {
            Some(f) => sources.contains(f),
            None => false,
        },
        None => false,
    };
    if !in_project {
        return false;
    }
    match &v.demangled {
        Some(d) => name_is_entry(d),
        None => false,
    }
}

/// Picks the first symbol, in the given order, that `spec_view_matches`
/// accepts, and returns its static address; fails with `NoMainFunction`,
/// and only with it, when none matches. Repeated calls on equal inputs
/// return equal results: the outcome is a function of the symbol sequence
/// and the source set alone.
pub fn select_entry(views: &Vec<SymbolView>, sources: &SourceFiles) -> (r: Result<
    u64,
    AppError,
>)
    ensures
        match spec_select_from(views@, *sources, 0) {
            Some(a) => r == Ok::<u64, AppError>(a),
            None => r == Err::<u64, AppError>(AppError::NoMainFunction),
        },
{
    let n = views.len();
    let mut i: usize = 0;
    while i < n
        invariant
            i <= n,
            n == views@.len(),
            spec_select_from(views@, *sources, 0) == spec_select_from(views@, *sources, i as int),
        decreases n - i,
    {
        if view_matches(&views[i], sources) {
            return Ok(views[i].address);
        }
        i += 1;
    }
    Err(AppError::NoMainFunction)
}

/// The whole entry-point discovery decision, over plain values: without
/// debug information the answer is `NoDebugSymbols` whatever the symbols
/// say; with it, the answer is the first matching symbol's address or
/// `NoMainFunction`. Deterministic by construction: the result is a
/// function of the three arguments.
pub fn discover_entry(has_debug_info: bool, views: &Vec<SymbolView>, sources: &SourceFiles) -> (r:
    Result<u64, AppError>)
    ensures
        !has_debug_info ==> r == Err::<u64, AppError>(AppError::NoDebugSymbols),
        has_debug_info ==> match spec_select_from(views@, *sources, 0) {
            Some(a) => r == Ok::<u64, AppError>(a),
            None => r == Err::<u64, AppError>(AppError::NoMainFunction),
        },
{
    if !has_debug_info {
        return Err(AppError::NoDebugSymbols);
    }
    select_entry(views, sources)
}

/// Finds the file-relative address to break on: parses the executable's
/// bytes, requires debug information, resolves and demangles each symbol,
/// and lets `discover_entry` choose. The symbol table is read only when
/// debug information is present.
pub fn find_main_symbol_address(
    exe_bytes: &Vec<u8>,
    a2l_loader: &addr2line::Loader,
    source_files: &SourceFiles,
) -> (r: Result<u64, AppError>)
    ensures
        r matches Err(e) ==> (e == AppError::ObjectRead || e == AppError::NoDebugSymbols
            || e == AppError::SymbolLookup || e == AppError::NoMainFunction),
{
    let object_file = match parse_object(exe_bytes) {
        Ok(f) => f,
        Err(_) => {
            return Err(AppError::ObjectRead);
        },
    };
    if !obj_has_debug_symbols(&object_file) {
        let views: Vec<SymbolView> = Vec::new();
        return discover_entry(false, &views, source_files);
    }
    let raw = obj_symbols(&object_file);
    let mut views: Vec<SymbolView> = Vec::new();
    let n = raw.len();
    let mut i: usize = 0;
    while i < n
        invariant
            i <= n,
            n == raw@.len(),
        decreases n - i,
    {
        let location = match loader_find_location(a2l_loader, raw[i].address) {
            Ok(l) => l,
            Err(_) => {
                return Err(AppError::SymbolLookup);
            },
        };
        let demangled = match &raw[i].name {
            Some(name) => Some(demangle_bytes(name)),
            None => None,
        };
        views.push(SymbolView { address: raw[i].address, demangled, location });
        i += 1;
    }
    discover_entry(true, &views, source_files)
}

} // verus!
