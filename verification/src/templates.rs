//! The fixed text of the files of a project. Each file is a few pieces of
//! text with a slot between each two.

use vstd::prelude::*;

verus! {

/// The slot for the name of the package.
pub const SLOT_PACKAGE_NAME: &'static str = "package_name";

/// The slot for the name of the library target.
pub const SLOT_LIBRARY_NAME: &'static str = "library_name";

/// The slot for the number of exports.
pub const SLOT_EXPORT_COUNT: &'static str = "export_count";

/// The slot for the index table.
pub const SLOT_EXPORT_INDICES: &'static str = "export_indices";

/// The slot for the loader table.
pub const SLOT_LOAD_EXPORTS: &'static str = "load_dll_exports";

/// The slot for the forwarding trampolines.
pub const SLOT_PROXY_EXPORTS: &'static str = "proxy_exports";

/// The slot for the name of the proxied library.
pub const SLOT_DLL_NAME: &'static str = "dll_name";

/// The slot for the lines of the module definition.
pub const SLOT_EXPORTS: &'static str = "exports";

/// The manifest, up to the name of the package.
pub const CARGO_HEAD: &'static str = "[package]\nname = \"";

/// The manifest, from the name of the package to the name of the library target.
pub const CARGO_MIDDLE: &'static str =
    "\"\nversion = \"0.1.0\"\nedition = \"2021\"\n\n[lib]\nname = \"";

/// The rest of the manifest.
pub const CARGO_TAIL: &'static str =
    "\"\ncrate-type = [\"cdylib\"]\n\n[dependencies]\nproxygen-macros = \"0.5\"\nwinapi = { version = \"0.3\", features = [\"consoleapi\", \"libloaderapi\", \"minwindef\", \"processthreadsapi\", \"winnt\"] }\n";

/// The file that names the toolchain of a project.
pub const TOOLCHAIN: &'static str = "[toolchain]\nchannel = \"nightly-2023-11-05\"";

/// The build script of a project, which hands the module definition to the linker.
pub const BUILD_SCRIPT: &'static str =
    "fn main() {\n    println!(\"cargo:rustc-link-arg=/DEF:module.def\");\n}";

/// The file of the index table, up to the number of exports.
pub const INDICES_HEAD: &'static str =
    "#![allow(dead_code, non_upper_case_globals)]\n\n/// The number of slots in the table of original functions.\npub const TOTAL_EXPORTS: usize = ";

/// Between the number of exports and the index table.
pub const INDICES_MIDDLE: &'static str = ";\n\n";

/// After the index table.
pub const INDICES_TAIL: &'static str = "";

/// The interceptor file of a new project.
pub const INTERCEPTED: &'static str =
    "#![allow(dead_code, unused_imports, non_snake_case)]\n\nuse std::arch::asm;\n\nuse proxygen_macros::{forward, post_hook, pre_hook, proxy};\n\nuse crate::export_indices::*;\nuse crate::{wait_dll_proxy_init, ORIGINAL_FUNCS, ORIG_FUNCS_PTR};\n\n// Interceptors go here: free functions, each named after the export it\n// intercepts and marked with one of the hooks imported above. An export that\n// has an interceptor in this file gets no forwarding trampoline.\n";

/// The root file of a proxy, up to the name of the proxied library.
pub const LIB_HEAD: &'static str =
    "#![feature(naked_functions)]\n#![allow(non_snake_case, non_upper_case_globals, static_mut_refs)]\n\nmod export_indices;\nmod intercepted_exports;\nmod orig_exports;\nmod proxied_exports;\n\nuse std::ffi::c_void;\nuse std::sync::{Condvar, Mutex};\n\nuse winapi::shared::minwindef::{BOOL, DWORD, HINSTANCE, LPVOID, TRUE};\nuse winapi::um::libloaderapi::LoadLibraryA;\nuse winapi::um::processthreadsapi::CreateThread;\nuse winapi::um::winnt::DLL_PROCESS_ATTACH;\n\nuse export_indices::TOTAL_EXPORTS;\n\n/// The library that this proxy stands in for.\nconst ORIGINAL_LIBRARY: &str = \"";

/// The rest of the root file: the table of original functions, the latch that
/// keeps callers waiting until the table is set, and the entry point, which
/// starts the thread that sets the table and opens the latch.
pub const LIB_TAIL: &'static str =
    "_.DLL\\0\";\n\n/// The addresses of the original functions, one slot for each export.\n/// Every slot is set before the latch opens and is only read from then on.\npub static mut ORIGINAL_FUNCS: [*const c_void; TOTAL_EXPORTS] = [std::ptr::null(); TOTAL_EXPORTS];\n\n#[no_mangle]\npub static mut ORIG_FUNCS_PTR: *const *const c_void = unsafe { ORIGINAL_FUNCS.as_ptr() };\n\n/// The latch: closed at first, opened once.\nstatic LATCH: (Mutex<bool>, Condvar) = (Mutex::new(false), Condvar::new());\n\n/// Blocks the caller until the latch is open.\n#[no_mangle]\npub extern \"C\" fn wait_dll_proxy_init() {\n    let (open, opened) = &LATCH;\n    let mut is_open = open.lock().unwrap();\n    while !*is_open {\n        is_open = opened.wait(is_open).unwrap();\n    }\n}\n\n/// Opens the latch and wakes every caller that waits at it.\nfn open_latch() {\n    let (open, opened) = &LATCH;\n    *open.lock().unwrap() = true;\n    opened.notify_all();\n}\n\nunsafe extern \"system\" fn init(_: LPVOID) -> DWORD {\n    let dll_handle = LoadLibraryA(ORIGINAL_LIBRARY.as_ptr() as *const i8);\n    if !dll_handle.is_null() {\n        orig_exports::load_dll_funcs(dll_handle);\n        open_latch();\n    }\n    0\n}\n\n#[no_mangle]\npub unsafe extern \"system\" fn DllMain(_: HINSTANCE, reason: DWORD, _: LPVOID) -> BOOL {\n    if reason == DLL_PROCESS_ATTACH {\n        CreateThread(std::ptr::null_mut(), 0, Some(init), std::ptr::null_mut(), 0, std::ptr::null_mut());\n    }\n    TRUE\n}\n";

/// The file of the loader table, up to the table.
pub const LOADER_HEAD: &'static str =
    "use std::ffi::CString;\n\nuse winapi::shared::minwindef::HMODULE;\nuse winapi::um::libloaderapi::GetProcAddress;\n\nuse crate::export_indices::*;\nuse crate::ORIGINAL_FUNCS;\n\n/// Puts the address of the original function `func` into the slot `index`.\nunsafe fn load_dll_func(index: usize, dll_handle: HMODULE, func: &str) {\n    let name = CString::new(func).expect(\"the name of an export holds no zero byte\");\n    ORIGINAL_FUNCS[index] = GetProcAddress(dll_handle, name.as_ptr()) as *const _;\n}\n\n/// Fills the table of original functions.\npub unsafe fn load_dll_funcs(dll_handle: HMODULE) {\n";

/// After the loader table.
pub const LOADER_TAIL: &'static str = "}\n";

/// The file of the forwarding trampolines, up to the first of them.
pub const FORWARD_HEAD: &'static str =
    "#![allow(unused_imports)]\n\nuse std::arch::asm;\n\nuse crate::export_indices::*;\nuse crate::{wait_dll_proxy_init, ORIG_FUNCS_PTR};\n\n";

/// After the forwarding trampolines.
pub const FORWARD_TAIL: &'static str = "";

/// The module definition, up to the name of the library.
pub const DEF_HEAD: &'static str = "LIBRARY ";

/// Between the name of the library and the lines of the exports.
pub const DEF_MIDDLE: &'static str = "\nEXPORTS\n";

/// After the lines of the exports.
pub const DEF_TAIL: &'static str = "";

} // verus!
