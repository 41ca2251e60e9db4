use hotpatch::cell::HotpatchImportInternal;
use hotpatch::error::PatchError;
use hotpatch::export::HotpatchExport;
use hotpatch::model::Origin;
use libloading::Library;
use std::cell::Cell;

type Imp = Box<dyn Fn(()) -> &'static str + Send + Sync>;

const SIG: &str = "fn() -> & 'static str";

const LOADABLE: &str = "libc.so.6";

fn says(text: &'static str) -> Imp {
    Box::new(move |_| text)
}

fn foo() -> HotpatchImportInternal<Imp> {
    HotpatchImportInternal::new(says("A"))
}

fn untouched() -> HotpatchImportInternal<Imp> {
    HotpatchImportInternal::new(says("default"))
}

fn no_exports(_: &Library, _: &str) -> Option<HotpatchExport<Imp>> {
    None
}

fn two_exports(_: &Library, name: &str) -> Option<HotpatchExport<Imp>> {
    match name {
        "__HOTPATCH_EXPORT_0" => Some(HotpatchExport::__new(says("from x"), "mod::x", SIG)),
        "__HOTPATCH_EXPORT_1" => Some(HotpatchExport::__new(says("from y"), "mod::y", SIG)),
        _ => None,
    }
}

#[test]
fn fresh_cell_runs_its_default() {
    let cell = foo();
    assert_eq!(cell.invoke(()), "A");
    assert_eq!(cell.invoke(()), "A");
    assert_eq!(cell.origin(), Origin::Default);
}

#[test]
fn current_is_the_implementation_in_force() {
    let mut cell = foo();
    assert_eq!((cell.current())(()), "A");
    cell.hotpatch_fn(says("B"));
    assert_eq!((cell.current())(()), "B");
}

#[test]
fn closure_patch_is_in_force_until_the_next() {
    let mut cell = foo();
    cell.hotpatch_fn(says("B"));
    assert_eq!(cell.invoke(()), "B");
    assert_eq!(cell.invoke(()), "B");
    assert_eq!(cell.origin(), Origin::Closure);
    cell.hotpatch_fn(says("C"));
    assert_eq!(cell.invoke(()), "C");
}

#[test]
fn closure_patch_sees_its_arguments() {
    let mut cell: HotpatchImportInternal<Box<dyn Fn((i32, i32)) -> i32>> =
        HotpatchImportInternal::new(Box::new(|(a, b)| a + b));
    assert_eq!(cell.invoke((6, 7)), 13);
    let scale = 10;
    cell.hotpatch_fn(Box::new(move |(a, b)| scale * a * b));
    assert_eq!(cell.invoke((6, 7)), 420);
    assert_eq!(cell.invoke((1, 2)), 20);
}

#[test]
fn restore_default_after_closure_patch() {
    let mut cell = foo();
    cell.hotpatch_fn(says("B"));
    assert_eq!(cell.invoke(()), "B");
    cell.restore_default();
    assert_eq!(cell.invoke(()), "A");
    assert_eq!(cell.origin(), Origin::Default);
}

#[test]
fn restore_default_after_many_patches() {
    let mut cell = foo();
    cell.hotpatch_fn(says("B"));
    assert_eq!(cell.hotpatch_lib("app::foo", SIG, LOADABLE, two_exports_for_foo), Ok(()));
    cell.hotpatch_fn(says("C"));
    assert_eq!(cell.hotpatch_lib("app::foo", SIG, LOADABLE, two_exports_for_foo), Ok(()));
    cell.restore_default();
    assert_eq!(cell.invoke(()), "A");
    cell.restore_default();
    assert_eq!(cell.invoke(()), "A");
}

fn two_exports_for_foo(_: &Library, name: &str) -> Option<HotpatchExport<Imp>> {
    match name {
        "__HOTPATCH_EXPORT_0" => Some(HotpatchExport::__new(says("other"), "app::bar", SIG)),
        "__HOTPATCH_EXPORT_1" => Some(HotpatchExport::__new(says("patched"), "app::foo", SIG)),
        _ => None,
    }
}

#[test]
fn library_patch_runs_the_export_with_the_path() {
    let mut cell = untouched();
    let (path, sig) = ("mod::y", SIG);
    assert_eq!(cell.hotpatch_lib(path, sig, LOADABLE, two_exports), Ok(()));
    assert_eq!(cell.invoke(()), "from y");
    assert_eq!(cell.origin(), Origin::Library);
}

#[test]
fn library_patch_runs_the_first_export_for_its_path() {
    let mut cell = untouched();
    let (path, sig) = ("mod::x", SIG);
    assert_eq!(cell.hotpatch_lib(path, sig, LOADABLE, two_exports), Ok(()));
    assert_eq!(cell.invoke(()), "from x");
}

#[test]
fn library_patch_asks_for_symbols_in_order_and_stops_at_the_match() {
    let asked: Cell<usize> = Cell::new(0);
    let in_order: Cell<bool> = Cell::new(true);
    let mut cell = untouched();
    let (path, sig) = ("mod::y", SIG);
    let outcome = cell.hotpatch_lib(path, sig, LOADABLE, |library: &Library, name: &str| {
        if name != format!("__HOTPATCH_EXPORT_{}", asked.get()) {
            in_order.set(false);
        }
        asked.set(asked.get() + 1);
        two_exports(library, name)
    });
    assert_eq!(outcome, Ok(()));
    assert!(in_order.get());
    assert_eq!(asked.get(), 2);
}

#[test]
fn library_patch_takes_absolute_spellings() {
    let mut cell = untouched();
    let (path, sig) = ("::mod::y", SIG);
    assert_eq!(cell.hotpatch_lib(path, sig, LOADABLE, two_exports), Ok(()));
    assert_eq!(cell.invoke(()), "from y");
}

#[test]
fn library_patch_replaces_library_patch() {
    let mut cell = untouched();
    let (path, sig) = ("mod::y", SIG);
    assert_eq!(cell.hotpatch_lib(path, sig, LOADABLE, two_exports), Ok(()));
    let again = |_: &Library, name: &str| -> Option<HotpatchExport<Imp>> {
        match name {
            "__HOTPATCH_EXPORT_0" => Some(HotpatchExport::__new(says("second y"), "mod::y", SIG)),
            _ => None,
        }
    };
    assert_eq!(cell.hotpatch_lib(path, sig, LOADABLE, again), Ok(()));
    assert_eq!(cell.invoke(()), "second y");
    assert_eq!(cell.origin(), Origin::Library);
}

#[test]
fn closure_patch_after_library_patch() {
    let mut cell = untouched();
    let (path, sig) = ("mod::y", SIG);
    assert_eq!(cell.hotpatch_lib(path, sig, LOADABLE, two_exports), Ok(()));
    cell.hotpatch_fn(says("B"));
    assert_eq!(cell.invoke(()), "B");
    assert_eq!(cell.origin(), Origin::Closure);
}

#[test]
fn library_that_does_not_load() {
    let mut cell = foo();
    let asked: Cell<usize> = Cell::new(0);
    let outcome = cell.hotpatch_lib("app::foo", SIG, "/nonexistent/libmissing_patch.so", |library: &Library, name: &str| {
        asked.set(asked.get() + 1);
        two_exports_for_foo(library, name)
    });
    assert_eq!(outcome, Err(PatchError::LibraryLoadFailure));
    assert_eq!(asked.get(), 0);
    assert_eq!(cell.invoke(()), "A");
    assert_eq!(cell.origin(), Origin::Default);
}

#[test]
fn library_without_exports() {
    let mut cell = foo();
    assert_eq!(cell.hotpatch_lib("app::foo", SIG, LOADABLE, no_exports), Err(PatchError::SymbolNotFound));
    assert_eq!(cell.invoke(()), "A");
}

#[test]
fn library_without_the_path() {
    let mut cell = foo();
    cell.hotpatch_fn(says("B"));
    assert_eq!(cell.hotpatch_lib("app::foo", SIG, LOADABLE, two_exports), Err(PatchError::SymbolNotFound));
    assert_eq!(cell.invoke(()), "B");
    assert_eq!(cell.origin(), Origin::Closure);
}

#[test]
fn library_with_a_gap_in_its_table() {
    let mut cell = untouched();
    let (path, sig) = ("mod::y", SIG);
    let gapped = |_: &Library, name: &str| -> Option<HotpatchExport<Imp>> {
        match name {
            "__HOTPATCH_EXPORT_0" => Some(HotpatchExport::__new(says("from x"), "mod::x", SIG)),
            "__HOTPATCH_EXPORT_2" => Some(HotpatchExport::__new(says("from y"), "mod::y", SIG)),
            _ => None,
        }
    };
    assert_eq!(cell.hotpatch_lib(path, sig, LOADABLE, gapped), Err(PatchError::SymbolNotFound));
    assert_eq!(cell.invoke(()), "default");
}

#[test]
fn library_with_another_signature() {
    let mut cell = untouched();
    let (path, sig) = ("mod::y", "fn(i32) -> & 'static str");
    assert_eq!(cell.hotpatch_lib(path, sig, LOADABLE, two_exports), Err(PatchError::SignatureMismatch));
    assert_eq!(cell.invoke(()), "default");
    assert_eq!(cell.origin(), Origin::Default);
}

#[test]
fn library_with_another_signature_keeps_the_library_patch() {
    let mut cell = untouched();
    let (path, sig) = ("mod::y", SIG);
    assert_eq!(cell.hotpatch_lib(path, sig, LOADABLE, two_exports), Ok(()));
    let other_sig = |_: &Library, name: &str| -> Option<HotpatchExport<Imp>> {
        match name {
            "__HOTPATCH_EXPORT_0" => Some(HotpatchExport::__new(says("wrong"), "mod::y", "fn() -> i32")),
            "__HOTPATCH_EXPORT_1" => Some(HotpatchExport::__new(says("right"), "mod::y", SIG)),
            _ => None,
        }
    };
    assert_eq!(cell.hotpatch_lib(path, sig, LOADABLE, other_sig), Err(PatchError::SignatureMismatch));
    assert_eq!(cell.invoke(()), "from y");
    assert_eq!(cell.origin(), Origin::Library);
}

#[test]
fn scenario_patch_then_restore() {
    let mut cell = foo();
    assert_eq!(cell.invoke(()), "A");
    cell.hotpatch_fn(says("B"));
    assert_eq!(cell.invoke(()), "B");
    cell.restore_default();
    assert_eq!(cell.invoke(()), "A");
}

#[test]
fn scenario_second_export_of_a_library() {
    let mut cell = untouched();
    let (path, sig) = ("mod::y", SIG);
    assert_eq!(cell.hotpatch_lib(path, sig, LOADABLE, two_exports), Ok(()));
    assert_eq!(cell.invoke(()), "from y");
    assert!(cell.invoke(()) != "from x");
}

#[test]
fn scan_of_an_open_library_adopts_the_patch() {
    let mut cell = untouched();
    let library = Library::new(LOADABLE).unwrap();
    assert_eq!(cell.scan_library("mod::y", SIG, library, two_exports), Ok(()));
    assert_eq!(cell.invoke(()), "from y");
    assert_eq!(cell.origin(), Origin::Library);
}

#[test]
fn scan_of_an_open_library_reports_what_it_lacks() {
    let mut cell = untouched();
    let library = Library::new(LOADABLE).unwrap();
    assert_eq!(cell.scan_library("mod::z", SIG, library, two_exports), Err(PatchError::SymbolNotFound));
    let library = Library::new(LOADABLE).unwrap();
    assert_eq!(cell.scan_library("mod::x", "fn(u8)", library, two_exports), Err(PatchError::SignatureMismatch));
    assert_eq!(cell.invoke(()), "default");
    assert_eq!(cell.origin(), Origin::Default);
}

#[test]
fn scan_compares_paths_after_their_leading_separators() {
    let spelled = |_: &Library, name: &str| -> Option<HotpatchExport<Imp>> {
        match name {
            "__HOTPATCH_EXPORT_0" => Some(HotpatchExport::__new(says("nested"), "outer::mod::y", SIG)),
            "__HOTPATCH_EXPORT_1" => Some(HotpatchExport::__new(says("absolute"), "::mod::y", SIG)),
            _ => None,
        }
    };
    let mut cell = untouched();
    assert_eq!(cell.hotpatch_lib("mod::y", SIG, LOADABLE, spelled), Ok(()));
    assert_eq!(cell.invoke(()), "absolute");
}
