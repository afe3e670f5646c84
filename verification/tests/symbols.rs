use cool::error::AppError;
use cool::source_files::SourceFiles;
use cool::symbols::{discover_entry, name_is_entry, select_entry, symbol_is_entry, LineInfo,
    SymbolView};
use cool::text::{bytes_eq, contains_bytes, nth_line};

fn v(s: &str) -> Vec<u8> {
    s.as_bytes().to_vec()
}

fn sources() -> SourceFiles {
    SourceFiles::new(v("/proj/"), vec![v("/proj/src/main.rs"), v("/proj/src/lib.rs")])
}

fn sym(addr: u64, demangled: Option<&str>, file: Option<&str>) -> SymbolView {
    SymbolView {
        address: addr,
        demangled: demangled.map(v),
        location: file.map(|f| LineInfo { file: Some(v(f)), line: Some(3), column: Some(1) }),
    }
}

#[test]
fn name_is_entry_looks_for_the_main_infix() {
    assert!(name_is_entry(&v("tgt::main::h0123456789abcdef")));
    assert!(!name_is_entry(&v("tgt::mainly::h0123456789abcdef")));
    assert!(!name_is_entry(&v("core::fmt::write")));
    assert!(!name_is_entry(&v("")));
}

#[test]
fn symbol_is_entry_demangles_first() {
    // demangles to tgt::main::h0123456789abcdef
    assert!(symbol_is_entry(&v("_ZN3tgt4main17h0123456789abcdefE")));
    // the raw bytes hold no "::main::": a wrapper handing them back
    // unchanged would answer false
    assert!(!contains_bytes(&v("_ZN3tgt4main17h0123456789abcdefE"), &v("::main::")));
    assert!(!symbol_is_entry(&v("_ZN3tgt5wrong17h0123456789abcdefE")));
}

#[test]
fn select_entry_picks_first_in_project_entry_symbol() {
    let s = sources();
    let views = vec![
        // entry name, but resolved outside the project
        sym(0x100, Some("tgt::main::h11"), Some("/lib/rustlib/foo.rs")),
        // in project, not the entry
        sym(0x200, Some("tgt::helper::h22"), Some("/proj/src/lib.rs")),
        // no location at all
        sym(0x300, Some("tgt::main::h33"), None),
        // the one to pick
        sym(0x400, Some("tgt::main::h44"), Some("/proj/src/main.rs")),
        // later match is ignored
        sym(0x500, Some("tgt::main::h55"), Some("/proj/src/main.rs")),
    ];
    assert_eq!(select_entry(&views, &s), Ok(0x400));
}

#[test]
fn select_entry_without_match_reports_no_main_function() {
    let s = sources();
    let views = vec![
        sym(0x100, Some("tgt::helper::h11"), Some("/proj/src/main.rs")),
        sym(0x200, None, Some("/proj/src/main.rs")),
    ];
    assert_eq!(select_entry(&views, &s), Err(AppError::NoMainFunction));
    assert_eq!(select_entry(&Vec::new(), &s), Err(AppError::NoMainFunction));
}

#[test]
fn entry_discovery_is_deterministic() {
    let s = sources();
    let views = vec![
        sym(0x100, Some("tgt::main::h11"), Some("/elsewhere.rs")),
        sym(0x400, Some("tgt::main::h44"), Some("/proj/src/main.rs")),
    ];
    let first = select_entry(&views, &s);
    let second = select_entry(&views, &s);
    assert_eq!(first, second);
    assert_eq!(first, Ok(0x400));
}

#[test]
fn discovery_without_debug_info_fails_before_any_symbol_is_considered() {
    let s = sources();
    // even a perfectly matching symbol table changes nothing
    let views = vec![sym(0x400, Some("tgt::main::h44"), Some("/proj/src/main.rs"))];
    assert_eq!(discover_entry(false, &views, &s), Err(AppError::NoDebugSymbols));
    assert_eq!(discover_entry(true, &views, &s), Ok(0x400));
}

#[test]
fn source_set_membership_and_dedup() {
    let s = SourceFiles::new(
        v("/proj/"),
        vec![v("/proj/a.rs"), v("/proj/b.rs"), v("/proj/a.rs")],
    );
    assert!(s.contains(&v("/proj/a.rs")));
    assert!(s.contains(&v("/proj/b.rs")));
    assert!(!s.contains(&v("/proj/c.rs")));
    let mut buffer = Vec::new();
    s.to_buffer(&mut buffer);
    assert!(bytes_eq(&buffer, &v("a.rs\nb.rs\n")));
}

#[test]
fn to_buffer_keeps_names_outside_the_root_whole() {
    let s = SourceFiles::new(v("/proj/"), vec![v("/other/x.rs")]);
    let mut buffer = Vec::new();
    s.to_buffer(&mut buffer);
    assert_eq!(buffer, v("/other/x.rs\n"));
}

#[test]
fn nth_line_is_one_based() {
    let text = v("first\nsecond\nthird");
    assert_eq!(nth_line(&text, 1), Some(v("first")));
    assert_eq!(nth_line(&text, 2), Some(v("second")));
    assert_eq!(nth_line(&text, 3), Some(v("third")));
    assert_eq!(nth_line(&text, 4), None);
}
