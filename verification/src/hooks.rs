//! The code emitted for one export: the forwarding trampoline, and the three
//! hooks that let an interceptor run before, after or instead of the original
//! function. Every piece of emitted code finds the original function in the
//! slot that the index of the export names, and waits for the table to be
//! filled before it reads the slot.

use vstd::prelude::*;
use crate::export_set::ExportSet;
use crate::exports::{is_identifier_text, ExportDescriptor};
use crate::text::{append, append_str, chars_of, same_text, string_of};

verus! {

/// The processor that a proxied library is built for.
#[derive(Clone, Copy, Debug, PartialEq, Eq, Structural)]
pub enum Arch {
    X86,
    X64,
}

/// Whether the signature of the original function is known to the interceptor.
#[derive(Clone, Copy, Debug, PartialEq, Eq, Structural)]
pub enum ProxySignatureType {
    Known,
    Unknown,
}

/// Why no code can be emitted for a declared interceptor.
#[derive(Clone, Copy, Debug, PartialEq, Eq, Structural)]
pub enum GenerationError {
    /// The argument of the hook is not `sig = "known"` or `sig = "unknown"`.
    BadAttribute,
    /// The declared name is the sanitized name of no export.
    UnknownExport,
    /// The interceptor declares a receiver; interceptors are free functions.
    ReceiverParameter,
    /// A parameter or the return type is not a plain name, or the
    /// interceptor is generic.
    UnsupportedSignature,
    /// Parameters are declared where the signature is unknown.
    ArgumentsNotAllowed,
    /// A return type is declared where the signature is unknown.
    ReturnTypeNotAllowed,
    /// A forwarding trampoline is declared with a body, which would never run.
    BodyNotAllowed,
    /// The hook needs the signature of the original function.
    SignatureMustBeKnown,
}

/// What stands in the parentheses of a hook: a bare word, a word with a list,
/// or a word with a value. For the last, `name` is the word where it is a
/// single identifier, and `value` the value where it is a string literal.
pub enum AttributeInput {
    Path,
    List,
    NameValue { name: Option<String>, value: Option<String> },
}

/// An attribute on a declared interceptor: the word it begins with, and its
/// full text.
pub struct Attribute {
    pub name: String,
    pub text: String,
}

/// A declared parameter: its name and the name of its type.
pub struct Parameter {
    pub name: String,
    pub type_tag: String,
}

/// A declared interceptor, with what stands before `fn`: whether it is
/// public, whether it is unsafe, and the calling convention where one is
/// written. `return_type` is `None` where none is written; `body` is the
/// code of the interceptor, emitted as it stands.
pub struct HookDeclaration {
    pub name: String,
    pub is_public: bool,
    pub is_unsafe: bool,
    pub abi: Option<String>,
    pub has_generics: bool,
    pub has_receiver: bool,
    pub parameters: Vec<Parameter>,
    pub return_type: Option<String>,
    pub body: String,
    pub attributes: Vec<Attribute>,
}

/// The line that limits an item to processors with 64-bit addresses.
pub const CFG_X64: &'static str = "#[cfg(target_arch=\"x86_64\")]\n";

/// The line that limits an item to processors with 32-bit addresses.
pub const CFG_X86: &'static str = "#[cfg(target_arch=\"x86\")]\n";

/// The line that keeps the name of a function as it is written.
pub const NO_MANGLE: &'static str = "#[no_mangle]\n";

/// The head of a function without prologue and epilogue, up to its name.
pub const NAKED_HEAD: &'static str = "#[naked]\npub unsafe extern \"C\" fn ";

/// From the name of a trampoline to its first instruction.
pub const ASM_OPEN: &'static str = "() {\n    asm!(\n";

/// Waits for the table, then loads the slot of the export into the
/// accumulator, with 64-bit addresses.
pub const LOAD_SLOT_X64: &'static str =
    "        \"call {wait_dll_proxy_init}\",\n        \"mov rax, qword ptr [rip + {ORIG_FUNCS_PTR}]\",\n        \"add rax, {orig_index} * 8\",\n        \"mov rax, qword ptr [rax]\",\n";

/// Waits for the table, then loads the slot of the export into the
/// accumulator, with 32-bit addresses.
pub const LOAD_SLOT_X86: &'static str =
    "        \"call {wait_dll_proxy_init}\",\n        \"mov eax, dword ptr [{ORIG_FUNCS_PTR}]\",\n        \"add eax, {orig_index} * 4\",\n        \"mov eax, dword ptr [eax]\",\n";

/// Jumps to the loaded address and leaves registers and stack as they came.
pub const JUMP_X64: &'static str = "        \"push rax\",\n        \"ret\",\n";

/// The same for 32-bit addresses.
pub const JUMP_X86: &'static str = "        \"push eax\",\n        \"ret\",\n";

/// Keeps the loaded address on the stack, saves the argument registers,
/// calls the interceptor, restores the registers in reverse order, and
/// returns into the original function.
pub const CALL_HOOK_X64: &'static str =
    "        \"push rax\",\n        \"push rdi; push rsi; push rcx; push rdx; push r8; push r9\",\n        \"sub rsp, 64\",\n        \"movaps [rsp], xmm0\",\n        \"movaps [rsp + 16], xmm1\",\n        \"movaps [rsp + 32], xmm2\",\n        \"movaps [rsp + 48], xmm3\",\n        \"call {proxygen_pre_hook_func}\",\n        \"movaps xmm3, [rsp + 48]\",\n        \"movaps xmm2, [rsp + 32]\",\n        \"movaps xmm1, [rsp + 16]\",\n        \"movaps xmm0, [rsp]\",\n        \"add rsp, 64\",\n        \"pop r9; pop r8; pop rdx; pop rcx; pop rsi; pop rdi\",\n        \"ret\",\n";

/// The operands of a trampoline, up to the name in the index constant.
pub const ASM_SYMBOLS: &'static str =
    "        wait_dll_proxy_init = sym wait_dll_proxy_init,\n        ORIG_FUNCS_PTR = sym ORIG_FUNCS_PTR,\n        orig_index = const Index_";

/// From the index constant to the name of the interceptor function.
pub const ASM_HOOK_SYMBOL: &'static str = ",\n        proxygen_pre_hook_func = sym ";

/// The end of a trampoline: it never returns to its own code.
pub const ASM_CLOSE: &'static str = ",\n        options(noreturn)\n    );\n}\n";

/// What the name of an interceptor function for an unknown signature begins with.
pub const HOOK_PREFIX: &'static str = "Proxygen_PreHook_";

/// Refuses to build a hook for an unknown signature but for 64-bit addresses.
pub const ONLY_X64: &'static str =
    "#[cfg(not(target_arch = \"x86_64\"))]\ncompile_error!(\"Pre-hooks aren't yet implemented for non x86-64\");\n\n";

/// The head of an interceptor function, up to its name.
pub const HOOK_HEAD: &'static str = "#[no_mangle]\npub unsafe extern \"C\" fn ";

/// From the name of an interceptor function to the index constant.
pub const HOOK_OPEN: &'static str =
    "() {\n    let orig_func: fn () = std::mem::transmute(ORIGINAL_FUNCS[Index_";

/// From the index constant to the code of the interceptor.
pub const HOOK_BODY: &'static str = "]);\n    ";

/// The end of a function.
pub const BLOCK_CLOSE: &'static str = "\n}\n";

/// What makes a declared function public.
pub const PUBLIC: &'static str = "pub ";

/// What makes a declared function unsafe.
pub const UNSAFE: &'static str = "unsafe ";

/// What stands before a calling convention.
pub const ABI_OPEN: &'static str = "extern \"";

/// What stands after a calling convention.
pub const ABI_CLOSE: &'static str = "\" ";

/// What stands before the name of a declared function.
pub const FN_WORD: &'static str = "fn ";

/// Waits for the table; then the declaration of `orig_func`, up to its parameter types.
pub const WAIT: &'static str = " {\n    wait_dll_proxy_init();\n    let orig_func: fn (";

/// From the type of `orig_func` to the index constant.
pub const RESOLVE: &'static str = " = unsafe { std::mem::transmute(ORIGINAL_FUNCS[Index_";

/// From the index constant to the code of the interceptor.
pub const RESOLVED: &'static str = "]) };\n    ";

/// The call of the original function that ends a hook, up to its arguments.
pub const CALL_ORIGINAL: &'static str = "\n    orig_func(";

/// The call of the original function that begins a hook, up to its arguments.
pub const CALL_FIRST: &'static str = "let mut orig_result = orig_func(";

/// From the arguments of the first call to the code of the interceptor.
pub const CALL_FIRST_END: &'static str = ");\n    ";

/// Returns `orig_result` and ends the function.
pub const RETURN_RESULT: &'static str = "\n    orig_result\n}\n";

/// Ends the last call and the function.
pub const CALL_END: &'static str = ")\n}\n";

/// The line that limits what follows to the processor `arch`.
pub open spec fn cfg_line(arch: Arch) -> Seq<char> {
    match arch {
        Arch::X64 => CFG_X64@,
        Arch::X86 => CFG_X86@,
    }
}

/// The instructions that wait for the table and load the slot.
pub open spec fn load_slot(arch: Arch) -> Seq<char> {
    match arch {
        Arch::X64 => LOAD_SLOT_X64@,
        Arch::X86 => LOAD_SLOT_X86@,
    }
}

/// The instructions that pass control to the loaded address.
pub open spec fn jump(arch: Arch) -> Seq<char> {
    match arch {
        Arch::X64 => JUMP_X64@,
        Arch::X86 => JUMP_X86@,
    }
}

/// The forwarding trampoline of the export `name` for one processor: a
/// function without prologue or epilogue, under the attribute lines `attrs`.
pub open spec fn trampoline_text(arch: Arch, attrs: Seq<char>, name: Seq<char>) -> Seq<char> {
    cfg_line(arch) + attrs + NAKED_HEAD@ + name + ASM_OPEN@ + load_slot(arch) + jump(arch)
        + ASM_SYMBOLS@ + name + ASM_CLOSE@
}

/// The forwarding trampolines of the export `name`, one for each pointer
/// width, a blank line between them.
pub open spec fn forward_text(attrs: Seq<char>, name: Seq<char>) -> Seq<char> {
    trampoline_text(Arch::X64, attrs, name) + "\n"@ + trampoline_text(Arch::X86, attrs, name)
}

/// Appends the forwarding trampoline of `name` for `arch` to `out`.
pub fn emit_trampoline(out: &mut Vec<char>, arch: Arch, attrs: &Vec<char>, name: &Vec<char>)
    ensures
        final(out)@ == old(out)@ + trampoline_text(arch, attrs@, name@),
{
    let mut t: Vec<char> = Vec::new();
    match arch {
        Arch::X64 => append_str(&mut t, CFG_X64),
        Arch::X86 => append_str(&mut t, CFG_X86),
    }
    append(&mut t, attrs);
    append_str(&mut t, NAKED_HEAD);
    append(&mut t, name);
    append_str(&mut t, ASM_OPEN);
    match arch {
        Arch::X64 => {
            append_str(&mut t, LOAD_SLOT_X64);
            append_str(&mut t, JUMP_X64);
        },
        Arch::X86 => {
            append_str(&mut t, LOAD_SLOT_X86);
            append_str(&mut t, JUMP_X86);
        },
    }
    append_str(&mut t, ASM_SYMBOLS);
    append(&mut t, name);
    append_str(&mut t, ASM_CLOSE);
    assert(t@ =~= trampoline_text(arch, attrs@, name@));
    append(out, &t);
}

/// Appends the forwarding trampolines of `name` for both pointer widths.
pub fn emit_forward(out: &mut Vec<char>, attrs: &Vec<char>, name: &Vec<char>)
    ensures
        final(out)@ == old(out)@ + forward_text(attrs@, name@),
{
    let mut t: Vec<char> = Vec::new();
    emit_trampoline(&mut t, Arch::X64, attrs, name);
    append_str(&mut t, "\n");
    emit_trampoline(&mut t, Arch::X86, attrs, name);
    assert(t@ =~= forward_text(attrs@, name@));
    append(out, &t);
}

/// The lines of the attributes of `attrs` that are not named `own`, each
/// with its line feed.
pub open spec fn attribute_lines(attrs: Seq<Attribute>, own: Seq<char>) -> Seq<char>
    decreases attrs.len(),
{
    if attrs.len() == 0 {
        Seq::empty()
    } else {
        let rest = attribute_lines(attrs.drop_last(), own);
        if attrs.last().name@ == own {
            rest
        } else {
            rest + attrs.last().text@ + "\n"@
        }
    }
}

/// The parameters as they are declared: `name: type, ` for each.
pub open spec fn declared_parameters(ps: Seq<Parameter>) -> Seq<char>
    decreases ps.len(),
{
    if ps.len() == 0 {
        Seq::empty()
    } else {
        declared_parameters(ps.drop_last()) + ps.last().name@ + ": "@ + ps.last().type_tag@
            + ", "@
    }
}

/// The types of the parameters: `type, ` for each.
pub open spec fn parameter_types(ps: Seq<Parameter>) -> Seq<char>
    decreases ps.len(),
{
    if ps.len() == 0 {
        Seq::empty()
    } else {
        parameter_types(ps.drop_last()) + ps.last().type_tag@ + ", "@
    }
}

/// The names of the parameters: `name, ` for each.
pub open spec fn parameter_names(ps: Seq<Parameter>) -> Seq<char>
    decreases ps.len(),
{
    if ps.len() == 0 {
        Seq::empty()
    } else {
        parameter_names(ps.drop_last()) + ps.last().name@ + ", "@
    }
}

/// The return type as it is declared: nothing, or ` -> type`.
pub open spec fn return_text(ret: Option<String>) -> Seq<char> {
    match ret {
        None => Seq::empty(),
        Some(t) => " -> "@ + t@,
    }
}

/// What stands before the name of the declared function, as it was
/// declared: `pub`, `unsafe`, the calling convention, and `fn`.
pub open spec fn qualifiers_text(decl: HookDeclaration) -> Seq<char> {
    (if decl.is_public {
        PUBLIC@
    } else {
        Seq::empty()
    }) + (if decl.is_unsafe {
        UNSAFE@
    } else {
        Seq::empty()
    }) + (match decl.abi {
        Some(abi) => ABI_OPEN@ + abi@ + ABI_CLOSE@,
        None => Seq::empty(),
    }) + FN_WORD@
}

/// The attributes, the signature as it was declared, and the first
/// statements of a hook with a known signature: wait for the table, then
/// take the original function from its slot as a function of the declared
/// signature.
pub open spec fn known_head(decl: HookDeclaration, own: Seq<char>) -> Seq<char> {
    attribute_lines(decl.attributes@, own) + qualifiers_text(decl) + decl.name@ + "("@
        + declared_parameters(decl.parameters@) + ")"@ + return_text(decl.return_type) + WAIT@
        + parameter_types(decl.parameters@) + ")"@ + return_text(decl.return_type) + RESOLVE@
        + decl.name@ + RESOLVED@
}

/// A hook that runs the interceptor, then calls the original function with
/// the declared arguments and returns what it returns.
pub open spec fn pre_hook_known_text(decl: HookDeclaration) -> Seq<char> {
    known_head(decl, "pre_hook"@) + decl.body@ + CALL_ORIGINAL@ + parameter_names(
        decl.parameters@,
    ) + CALL_END@
}

/// A hook that calls the original function first, binds what it returns to
/// `orig_result`, runs the interceptor, and returns `orig_result`.
pub open spec fn post_hook_text(decl: HookDeclaration) -> Seq<char> {
    known_head(decl, "post_hook"@) + CALL_FIRST@ + parameter_names(decl.parameters@)
        + CALL_FIRST_END@ + decl.body@ + RETURN_RESULT@
}

/// A hook that only brings the original function into scope, as `orig_func`.
pub open spec fn proxy_text(decl: HookDeclaration) -> Seq<char> {
    known_head(decl, "proxy"@) + decl.body@ + BLOCK_CLOSE@
}

/// The interceptor as a function without arguments, and a trampoline that
/// waits for the table, loads the slot, saves the argument registers, calls
/// the interceptor, restores the registers and passes control to the
/// original function.
pub open spec fn pre_hook_unknown_text(decl: HookDeclaration) -> Seq<char> {
    ONLY_X64@ + HOOK_HEAD@ + HOOK_PREFIX@ + decl.name@ + HOOK_OPEN@ + decl.name@ + HOOK_BODY@
        + decl.body@ + BLOCK_CLOSE@ + "\n"@ + attribute_lines(decl.attributes@, "pre_hook"@)
        + NAKED_HEAD@ + decl.name@ + ASM_OPEN@ + LOAD_SLOT_X64@ + CALL_HOOK_X64@ + ASM_SYMBOLS@
        + decl.name@ + ASM_HOOK_SYMBOL@ + HOOK_PREFIX@ + decl.name@ + ASM_CLOSE@
}

/// Whether `name` is the sanitized name of an export of `exports`.
pub open spec fn names_export(exports: Seq<ExportDescriptor>, name: Seq<char>) -> bool {
    exists|i: int| 0 <= i < exports.len() && (#[trigger] exports[i]).sanitized_name == name
}

/// Whether `s` is a plain name: ASCII letters, digits and `_`, at least one.
pub open spec fn is_plain_name(s: Seq<char>) -> bool {
    s.len() > 0 && is_identifier_text(s)
}

/// Whether every parameter has a plain name and a plain type.
pub open spec fn plain_parameters(ps: Seq<Parameter>) -> bool {
    forall|i: int|
        0 <= i < ps.len() ==> is_plain_name((#[trigger] ps[i]).name@) && is_plain_name(
            ps[i].type_tag@,
        )
}

/// Whether no value is returned: no type is declared, or the unit type.
pub open spec fn returns_nothing(ret: Option<String>) -> bool {
    match ret {
        None => true,
        Some(t) => t@ == "()"@,
    }
}

/// Whether the declared return type is absent, the unit type, or a plain name.
pub open spec fn plain_return(ret: Option<String>) -> bool {
    match ret {
        None => true,
        Some(t) => t@ == "()"@ || is_plain_name(t@),
    }
}

/// What forbids a hook with a known signature, if anything does.
pub open spec fn known_violation(
    exports: Seq<ExportDescriptor>,
    decl: HookDeclaration,
) -> Option<GenerationError> {
    if !names_export(exports, decl.name@) {
        Some(GenerationError::UnknownExport)
    } else if decl.has_receiver {
        Some(GenerationError::ReceiverParameter)
    } else if decl.has_generics || !plain_parameters(decl.parameters@) || !plain_return(
        decl.return_type,
    ) {
        Some(GenerationError::UnsupportedSignature)
    } else {
        None
    }
}

/// What forbids a trampoline for an unknown signature, if anything does:
/// nothing of the call can be shown to the interceptor, so it declares
/// neither parameters nor a return type.
pub open spec fn unknown_violation(
    exports: Seq<ExportDescriptor>,
    decl: HookDeclaration,
) -> Option<GenerationError> {
    if !names_export(exports, decl.name@) {
        Some(GenerationError::UnknownExport)
    } else if decl.has_receiver {
        Some(GenerationError::ReceiverParameter)
    } else if decl.parameters@.len() > 0 {
        Some(GenerationError::ArgumentsNotAllowed)
    } else if !returns_nothing(decl.return_type) {
        Some(GenerationError::ReturnTypeNotAllowed)
    } else {
        None
    }
}

/// What `forward` owes for a declaration.
pub open spec fn forward_result(exports: Seq<ExportDescriptor>, decl: HookDeclaration) -> Result<
    Seq<char>,
    GenerationError,
> {
    match unknown_violation(exports, decl) {
        Some(e) => Err(e),
        None => if decl.body@.len() > 0 {
            Err(GenerationError::BodyNotAllowed)
        } else {
            Ok(forward_text(attribute_lines(decl.attributes@, "forward"@), decl.name@))
        },
    }
}

/// What `proxy` owes for a declaration.
pub open spec fn proxy_result(
    exports: Seq<ExportDescriptor>,
    sig: ProxySignatureType,
    decl: HookDeclaration,
) -> Result<Seq<char>, GenerationError> {
    match sig {
        ProxySignatureType::Unknown => Err(GenerationError::SignatureMustBeKnown),
        ProxySignatureType::Known => match known_violation(exports, decl) {
            Some(e) => Err(e),
            None => Ok(proxy_text(decl)),
        },
    }
}

/// What `pre_hook` owes for a declaration.
pub open spec fn pre_hook_result(
    exports: Seq<ExportDescriptor>,
    sig: ProxySignatureType,
    decl: HookDeclaration,
) -> Result<Seq<char>, GenerationError> {
    match sig {
        ProxySignatureType::Known => match known_violation(exports, decl) {
            Some(e) => Err(e),
            None => Ok(pre_hook_known_text(decl)),
        },
        ProxySignatureType::Unknown => match unknown_violation(exports, decl) {
            Some(e) => Err(e),
            None => Ok(pre_hook_unknown_text(decl)),
        },
    }
}

/// What `post_hook` owes for a declaration.
pub open spec fn post_hook_result(
    exports: Seq<ExportDescriptor>,
    sig: ProxySignatureType,
    decl: HookDeclaration,
) -> Result<Seq<char>, GenerationError> {
    match sig {
        ProxySignatureType::Unknown => Err(GenerationError::SignatureMustBeKnown),
        ProxySignatureType::Known => match known_violation(exports, decl) {
            Some(e) => Err(e),
            None => Ok(post_hook_text(decl)),
        },
    }
}

/// Whether `r` is the text or the error that `owed` names.
pub open spec fn gives(r: Result<String, GenerationError>, owed: Result<Seq<char>, GenerationError>) -> bool {
    match owed {
        Ok(t) => r matches Ok(s) && s@ == t,
        Err(e) => r == Err::<String, GenerationError>(e),
    }
}

/// The signature kind that the argument of a hook names.
pub open spec fn signature_of(meta: AttributeInput) -> Result<ProxySignatureType, GenerationError> {
    match meta {
        AttributeInput::NameValue { name: Some(n), value: Some(v) } => if n@ != "sig"@ {
            Err(GenerationError::BadAttribute)
        } else if v@ == "known"@ {
            Ok(ProxySignatureType::Known)
        } else if v@ == "unknown"@ {
            Ok(ProxySignatureType::Unknown)
        } else {
            Err(GenerationError::BadAttribute)
        },
        _ => Err(GenerationError::BadAttribute),
    }
}

impl ProxySignatureType {
    /// Reads `sig = "known"` or `sig = "unknown"`; anything else is refused.
    pub fn from_meta(meta: &AttributeInput) -> (r: Result<ProxySignatureType, GenerationError>)
        ensures
            r == signature_of(*meta),
    {
        match meta {
            AttributeInput::Path => Err(GenerationError::BadAttribute),
            AttributeInput::List => Err(GenerationError::BadAttribute),
            AttributeInput::NameValue { name, value } => {
                match (name, value) {
                    (Some(n), Some(v)) => {
                        if !is_text(n.as_str(), "sig") {
                            Err(GenerationError::BadAttribute)
                        } else if is_text(v.as_str(), "known") {
                            Ok(ProxySignatureType::Known)
                        } else if is_text(v.as_str(), "unknown") {
                            Ok(ProxySignatureType::Unknown)
                        } else {
                            Err(GenerationError::BadAttribute)
                        }
                    },
                    _ => Err(GenerationError::BadAttribute),
                }
            },
        }
    }
}

fn is_text(s: &str, t: &str) -> (r: bool)
    ensures
        r == (s@ == t@),
{
    same_text(&chars_of(s), &chars_of(t))
}

fn plain_name(s: &str) -> (r: bool)
    ensures
        r == is_plain_name(s@),
{
    let v = chars_of(s);
    if v.len() == 0 {
        return false;
    }
    let mut i: usize = 0;
    while i < v.len()
        invariant
            i <= v.len(),
            v@ == s@,
            forall|j: int|
                0 <= j < i ==> crate::exports::is_alphanumeric(#[trigger] v@[j]) || v@[j] == '_',
        decreases v.len() - i,
    {
        let c = v[i];
        if !(('a' <= c && c <= 'z') || ('A' <= c && c <= 'Z') || ('0' <= c && c <= '9') || c
            == '_') {
            assert(!crate::exports::is_alphanumeric(s@[i as int]) && s@[i as int] != '_');
            return false;
        }
        i += 1;
    }
    true
}

fn emit_attribute_lines(out: &mut Vec<char>, attrs: &Vec<Attribute>, own: &str)
    ensures
        final(out)@ == old(out)@ + attribute_lines(attrs@, own@),
{
    let mut t: Vec<char> = Vec::new();
    let mut i: usize = 0;
    assert(attrs@.take(0) =~= Seq::<Attribute>::empty());
    while i < attrs.len()
        invariant
            i <= attrs.len(),
            t@ == attribute_lines(attrs@.take(i as int), own@),
        decreases attrs.len() - i,
    {
        assert(attrs@.take(i + 1).drop_last() =~= attrs@.take(i as int));
        if !is_text(attrs[i].name.as_str(), own) {
            append_str(&mut t, attrs[i].text.as_str());
            append_str(&mut t, "\n");
        }
        i += 1;
    }
    assert(attrs@.take(attrs.len() as int) =~= attrs@);
    append(out, &t);
}

fn emit_declared_parameters(out: &mut Vec<char>, ps: &Vec<Parameter>)
    ensures
        final(out)@ == old(out)@ + declared_parameters(ps@),
{
    let mut t: Vec<char> = Vec::new();
    let mut i: usize = 0;
    assert(ps@.take(0) =~= Seq::<Parameter>::empty());
    while i < ps.len()
        invariant
            i <= ps.len(),
            t@ == declared_parameters(ps@.take(i as int)),
        decreases ps.len() - i,
    {
        assert(ps@.take(i + 1).drop_last() =~= ps@.take(i as int));
        append_str(&mut t, ps[i].name.as_str());
        append_str(&mut t, ": ");
        append_str(&mut t, ps[i].type_tag.as_str());
        append_str(&mut t, ", ");
        i += 1;
    }
    assert(ps@.take(ps.len() as int) =~= ps@);
    append(out, &t);
}

fn emit_parameter_types(out: &mut Vec<char>, ps: &Vec<Parameter>)
    ensures
        final(out)@ == old(out)@ + parameter_types(ps@),
{
    let mut t: Vec<char> = Vec::new();
    let mut i: usize = 0;
    assert(ps@.take(0) =~= Seq::<Parameter>::empty());
    while i < ps.len()
        invariant
            i <= ps.len(),
            t@ == parameter_types(ps@.take(i as int)),
        decreases ps.len() - i,
    {
        assert(ps@.take(i + 1).drop_last() =~= ps@.take(i as int));
        append_str(&mut t, ps[i].type_tag.as_str());
        append_str(&mut t, ", ");
        i += 1;
    }
    assert(ps@.take(ps.len() as int) =~= ps@);
    append(out, &t);
}

fn emit_parameter_names(out: &mut Vec<char>, ps: &Vec<Parameter>)
    ensures
        final(out)@ == old(out)@ + parameter_names(ps@),
{
    let mut t: Vec<char> = Vec::new();
    let mut i: usize = 0;
    assert(ps@.take(0) =~= Seq::<Parameter>::empty());
    while i < ps.len()
        invariant
            i <= ps.len(),
            t@ == parameter_names(ps@.take(i as int)),
        decreases ps.len() - i,
    {
        assert(ps@.take(i + 1).drop_last() =~= ps@.take(i as int));
        append_str(&mut t, ps[i].name.as_str());
        append_str(&mut t, ", ");
        i += 1;
    }
    assert(ps@.take(ps.len() as int) =~= ps@);
    append(out, &t);
}

fn emit_return(out: &mut Vec<char>, ret: &Option<String>)
    ensures
        final(out)@ == old(out)@ + return_text(*ret),
{
    match ret {
        None => {
            assert(out@ =~= old(out)@ + return_text(*ret));
        },
        Some(t) => {
            let mut piece: Vec<char> = Vec::new();
            append_str(&mut piece, " -> ");
            append_str(&mut piece, t.as_str());
            assert(piece@ =~= return_text(*ret));
            append(out, &piece);
        },
    }
}

fn emit_qualifiers(out: &mut Vec<char>, decl: &HookDeclaration)
    ensures
        final(out)@ == old(out)@ + qualifiers_text(*decl),
{
    let mut t: Vec<char> = Vec::new();
    if decl.is_public {
        append_str(&mut t, PUBLIC);
    }
    if decl.is_unsafe {
        append_str(&mut t, UNSAFE);
    }
    match &decl.abi {
        Some(abi) => {
            let mut convention: Vec<char> = Vec::new();
            append_str(&mut convention, ABI_OPEN);
            append_str(&mut convention, abi.as_str());
            append_str(&mut convention, ABI_CLOSE);
            append(&mut t, &convention);
        },
        None => {},
    }
    append_str(&mut t, FN_WORD);
    assert(t@ =~= qualifiers_text(*decl));
    append(out, &t);
}

fn emit_known_head(out: &mut Vec<char>, decl: &HookDeclaration, own: &str)
    ensures
        final(out)@ == old(out)@ + known_head(*decl, own@),
{
    let mut t: Vec<char> = Vec::new();
    emit_attribute_lines(&mut t, &decl.attributes, own);
    emit_qualifiers(&mut t, decl);
    append_str(&mut t, decl.name.as_str());
    append_str(&mut t, "(");
    emit_declared_parameters(&mut t, &decl.parameters);
    append_str(&mut t, ")");
    emit_return(&mut t, &decl.return_type);
    append_str(&mut t, WAIT);
    emit_parameter_types(&mut t, &decl.parameters);
    append_str(&mut t, ")");
    emit_return(&mut t, &decl.return_type);
    append_str(&mut t, RESOLVE);
    append_str(&mut t, decl.name.as_str());
    append_str(&mut t, RESOLVED);
    assert(t@ =~= known_head(*decl, own@));
    append(out, &t);
}

fn check_plain_parameters(ps: &Vec<Parameter>) -> (r: bool)
    ensures
        r == plain_parameters(ps@),
{
    let mut i: usize = 0;
    while i < ps.len()
        invariant
            i <= ps.len(),
            forall|j: int|
                0 <= j < i ==> is_plain_name((#[trigger] ps@[j]).name@) && is_plain_name(
                    ps@[j].type_tag@,
                ),
        decreases ps.len() - i,
    {
        if !plain_name(ps[i].name.as_str()) || !plain_name(ps[i].type_tag.as_str()) {
            return false;
        }
        i += 1;
    }
    true
}

fn check_returns_nothing(ret: &Option<String>) -> (r: bool)
    ensures
        r == returns_nothing(*ret),
{
    match ret {
        None => true,
        Some(t) => is_text(t.as_str(), "()"),
    }
}

fn check_plain_return(ret: &Option<String>) -> (r: bool)
    ensures
        r == plain_return(*ret),
{
    match ret {
        None => true,
        Some(t) => is_text(t.as_str(), "()") || plain_name(t.as_str()),
    }
}

fn check_known(exports: &ExportSet, decl: &HookDeclaration) -> (r: Option<GenerationError>)
    ensures
        r == known_violation(exports@, *decl),
{
    if exports.slot_of(decl.name.as_str()).is_none() {
        Some(GenerationError::UnknownExport)
    } else if decl.has_receiver {
        Some(GenerationError::ReceiverParameter)
    } else if decl.has_generics || !check_plain_parameters(&decl.parameters)
        || !check_plain_return(&decl.return_type) {
        Some(GenerationError::UnsupportedSignature)
    } else {
        None
    }
}

fn check_unknown(exports: &ExportSet, decl: &HookDeclaration) -> (r: Option<GenerationError>)
    ensures
        r == unknown_violation(exports@, *decl),
{
    if exports.slot_of(decl.name.as_str()).is_none() {
        Some(GenerationError::UnknownExport)
    } else if decl.has_receiver {
        Some(GenerationError::ReceiverParameter)
    } else if decl.parameters.len() > 0 {
        Some(GenerationError::ArgumentsNotAllowed)
    } else if !check_returns_nothing(&decl.return_type) {
        Some(GenerationError::ReturnTypeNotAllowed)
    } else {
        None
    }
}

/// The forwarding trampolines for a declared export: control passes to the
/// original function with registers and stack as the caller left them. The
/// declaration names an export and has no parameters, no return type and no
/// body.
pub fn forward(exports: &ExportSet, decl: &HookDeclaration) -> (r: Result<String, GenerationError>)
    ensures
        gives(r, forward_result(exports@, *decl)),
{
    match check_unknown(exports, decl) {
        Some(e) => Err(e),
        None => {
            if chars_of(decl.body.as_str()).len() > 0 {
                return Err(GenerationError::BodyNotAllowed);
            }
            let mut attrs: Vec<char> = Vec::new();
            emit_attribute_lines(&mut attrs, &decl.attributes, "forward");
            let mut out: Vec<char> = Vec::new();
            emit_forward(&mut out, &attrs, &chars_of(decl.name.as_str()));
            assert(out@ =~= forward_text(attribute_lines(decl.attributes@, "forward"@), decl.name@));
            Ok(string_of(&out))
        },
    }
}

/// The declared function with the original function in scope as
/// `orig_func`; whether and how it is called is left to the body.
pub fn proxy(exports: &ExportSet, sig: ProxySignatureType, decl: &HookDeclaration) -> (r: Result<
    String,
    GenerationError,
>)
    ensures
        gives(r, proxy_result(exports@, sig, *decl)),
{
    match sig {
        ProxySignatureType::Unknown => Err(GenerationError::SignatureMustBeKnown),
        ProxySignatureType::Known => match check_known(exports, decl) {
            Some(e) => Err(e),
            None => {
                let mut out: Vec<char> = Vec::new();
                emit_known_head(&mut out, decl, "proxy");
                append_str(&mut out, decl.body.as_str());
                append_str(&mut out, BLOCK_CLOSE);
                assert(out@ =~= proxy_text(*decl));
                Ok(string_of(&out))
            },
        },
    }
}

/// The hook that runs the interceptor before the original function.
pub fn pre_hook(exports: &ExportSet, sig: ProxySignatureType, decl: &HookDeclaration) -> (r:
    Result<String, GenerationError>)
    ensures
        gives(r, pre_hook_result(exports@, sig, *decl)),
{
    match sig {
        ProxySignatureType::Known => match check_known(exports, decl) {
            Some(e) => Err(e),
            None => {
                let mut out: Vec<char> = Vec::new();
                emit_known_head(&mut out, decl, "pre_hook");
                append_str(&mut out, decl.body.as_str());
                append_str(&mut out, CALL_ORIGINAL);
                emit_parameter_names(&mut out, &decl.parameters);
                append_str(&mut out, CALL_END);
                assert(out@ =~= pre_hook_known_text(*decl));
                Ok(string_of(&out))
            },
        },
        ProxySignatureType::Unknown => match check_unknown(exports, decl) {
            Some(e) => Err(e),
            None => {
                let name = decl.name.as_str();
                let mut out: Vec<char> = Vec::new();
                append_str(&mut out, ONLY_X64);
                append_str(&mut out, HOOK_HEAD);
                append_str(&mut out, HOOK_PREFIX);
                append_str(&mut out, name);
                append_str(&mut out, HOOK_OPEN);
                append_str(&mut out, name);
                append_str(&mut out, HOOK_BODY);
                append_str(&mut out, decl.body.as_str());
                append_str(&mut out, BLOCK_CLOSE);
                append_str(&mut out, "\n");
                emit_attribute_lines(&mut out, &decl.attributes, "pre_hook");
                append_str(&mut out, NAKED_HEAD);
                append_str(&mut out, name);
                append_str(&mut out, ASM_OPEN);
                append_str(&mut out, LOAD_SLOT_X64);
                append_str(&mut out, CALL_HOOK_X64);
                append_str(&mut out, ASM_SYMBOLS);
                append_str(&mut out, name);
                append_str(&mut out, ASM_HOOK_SYMBOL);
                append_str(&mut out, HOOK_PREFIX);
                append_str(&mut out, name);
                append_str(&mut out, ASM_CLOSE);
                assert(out@ =~= pre_hook_unknown_text(*decl));
                Ok(string_of(&out))
            },
        },
    }
}

/// The hook that runs the interceptor after the original function: the
/// interceptor finds what the original returned in `orig_result` and may
/// replace it.
pub fn post_hook(exports: &ExportSet, sig: ProxySignatureType, decl: &HookDeclaration) -> (r:
    Result<String, GenerationError>)
    ensures
        gives(r, post_hook_result(exports@, sig, *decl)),
{
    match sig {
        ProxySignatureType::Unknown => Err(GenerationError::SignatureMustBeKnown),
        ProxySignatureType::Known => match check_known(exports, decl) {
            Some(e) => Err(e),
            None => {
                let mut out: Vec<char> = Vec::new();
                emit_known_head(&mut out, decl, "post_hook");
                append_str(&mut out, CALL_FIRST);
                emit_parameter_names(&mut out, &decl.parameters);
                append_str(&mut out, CALL_FIRST_END);
                append_str(&mut out, decl.body.as_str());
                append_str(&mut out, RETURN_RESULT);
                assert(out@ =~= post_hook_text(*decl));
                Ok(string_of(&out))
            },
        },
    }
}

} // verus!
