use proxygen::export_set::ExportSet;
use proxygen::hooks::{
    emit_forward, emit_trampoline, forward, post_hook, pre_hook, proxy, Arch, Attribute,
    AttributeInput, GenerationError, HookDeclaration, Parameter, ProxySignatureType,
};

fn exports() -> ExportSet {
    ExportSet::from_raw_names(&vec!["Foo@4".to_string(), "bar".to_string(), "a-b".to_string()])
}

fn declaration(name: &str) -> HookDeclaration {
    HookDeclaration {
        name: name.to_string(),
        is_public: true,
        is_unsafe: false,
        abi: Some("C".to_string()),
        has_generics: false,
        has_receiver: false,
        parameters: Vec::new(),
        return_type: None,
        body: String::new(),
        attributes: Vec::new(),
    }
}

fn parameter(name: &str, type_tag: &str) -> Parameter {
    Parameter { name: name.to_string(), type_tag: type_tag.to_string() }
}

fn attribute(name: &str, text: &str) -> Attribute {
    Attribute { name: name.to_string(), text: text.to_string() }
}

fn known(name: &str) -> HookDeclaration {
    let mut d = declaration(name);
    d.abi = Some("system".to_string());
    d.parameters = vec![parameter("a", "i32"), parameter("b", "u8")];
    d.return_type = Some("i32".to_string());
    d.body = "println!(\"{} {}\", a, b);".to_string();
    d.attributes = vec![attribute("no_mangle", "#[no_mangle]")];
    d
}

fn name_value(name: Option<&str>, value: Option<&str>) -> AttributeInput {
    AttributeInput::NameValue {
        name: name.map(|s| s.to_string()),
        value: value.map(|s| s.to_string()),
    }
}

const X64_TRAMPOLINE: &str = "#[cfg(target_arch=\"x86_64\")]\n#[naked]\npub unsafe extern \"C\" fn bar() {\n    asm!(\n        \"call {wait_dll_proxy_init}\",\n        \"mov rax, qword ptr [rip + {ORIG_FUNCS_PTR}]\",\n        \"add rax, {orig_index} * 8\",\n        \"mov rax, qword ptr [rax]\",\n        \"push rax\",\n        \"ret\",\n        wait_dll_proxy_init = sym wait_dll_proxy_init,\n        ORIG_FUNCS_PTR = sym ORIG_FUNCS_PTR,\n        orig_index = const Index_bar,\n        options(noreturn)\n    );\n}\n";

const X86_TRAMPOLINE: &str = "#[cfg(target_arch=\"x86\")]\n#[naked]\npub unsafe extern \"C\" fn bar() {\n    asm!(\n        \"call {wait_dll_proxy_init}\",\n        \"mov eax, dword ptr [{ORIG_FUNCS_PTR}]\",\n        \"add eax, {orig_index} * 4\",\n        \"mov eax, dword ptr [eax]\",\n        \"push eax\",\n        \"ret\",\n        wait_dll_proxy_init = sym wait_dll_proxy_init,\n        ORIG_FUNCS_PTR = sym ORIG_FUNCS_PTR,\n        orig_index = const Index_bar,\n        options(noreturn)\n    );\n}\n";

#[test]
fn signature_kind_is_read_from_the_attribute() {
    assert_eq!(
        ProxySignatureType::from_meta(&name_value(Some("sig"), Some("known"))),
        Ok(ProxySignatureType::Known)
    );
    assert_eq!(
        ProxySignatureType::from_meta(&name_value(Some("sig"), Some("unknown"))),
        Ok(ProxySignatureType::Unknown)
    );
}

#[test]
fn other_attributes_are_refused() {
    for meta in [
        AttributeInput::Path,
        AttributeInput::List,
        name_value(Some("sig"), Some("Known")),
        name_value(Some("sig"), Some("")),
        name_value(Some("sig"), None),
        name_value(Some("signature"), Some("known")),
        name_value(None, Some("known")),
        name_value(None, None),
    ] {
        assert_eq!(ProxySignatureType::from_meta(&meta), Err(GenerationError::BadAttribute));
    }
}

#[test]
fn trampoline_has_one_encoding_for_each_pointer_width() {
    let name: Vec<char> = "bar".chars().collect();
    let mut out: Vec<char> = "// ".chars().collect();
    emit_trampoline(&mut out, Arch::X64, &Vec::new(), &name);
    assert_eq!(out.iter().collect::<String>(), format!("// {}", X64_TRAMPOLINE));
    let mut out: Vec<char> = Vec::new();
    emit_trampoline(&mut out, Arch::X86, &Vec::new(), &name);
    assert_eq!(out.iter().collect::<String>(), X86_TRAMPOLINE);
    let mut out: Vec<char> = Vec::new();
    emit_forward(&mut out, &Vec::new(), &name);
    assert_eq!(out.iter().collect::<String>(), format!("{}\n{}", X64_TRAMPOLINE, X86_TRAMPOLINE));
}

#[test]
fn forward_emits_the_trampolines_under_the_kept_attributes() {
    let mut d = declaration("bar");
    d.attributes = vec![
        attribute("forward", "#[forward]"),
        attribute("no_mangle", "#[no_mangle]"),
        attribute("inline", "#[inline(never)]"),
    ];
    d.return_type = Some("()".to_string());
    let kept = "#[no_mangle]\n#[inline(never)]\n#[naked]";
    assert_eq!(
        forward(&exports(), &d),
        Ok(format!(
            "{}\n{}",
            X64_TRAMPOLINE.replace("#[naked]", kept),
            X86_TRAMPOLINE.replace("#[naked]", kept)
        ))
    );
}

#[test]
fn forward_refuses_what_would_never_run() {
    let set = exports();
    let mut d = declaration("missing");
    assert_eq!(forward(&set, &d), Err(GenerationError::UnknownExport));
    d = declaration("bar");
    d.has_receiver = true;
    assert_eq!(forward(&set, &d), Err(GenerationError::ReceiverParameter));
    d = declaration("bar");
    d.parameters = vec![parameter("a", "i32")];
    assert_eq!(forward(&set, &d), Err(GenerationError::ArgumentsNotAllowed));
    d = declaration("bar");
    d.return_type = Some("i32".to_string());
    assert_eq!(forward(&set, &d), Err(GenerationError::ReturnTypeNotAllowed));
    d = declaration("bar");
    d.body = "x();".to_string();
    assert_eq!(forward(&set, &d), Err(GenerationError::BodyNotAllowed));
}

#[test]
fn hooks_go_by_the_sanitized_name() {
    let set = exports();
    assert!(forward(&set, &declaration("a_b")).is_ok());
    assert!(forward(&set, &declaration("Foo")).is_ok());
    assert_eq!(forward(&set, &declaration("a-b")), Err(GenerationError::UnknownExport));
    assert_eq!(forward(&set, &declaration("Foo_4")), Err(GenerationError::UnknownExport));
    assert_eq!(forward(&ExportSet::new(), &declaration("bar")), Err(GenerationError::UnknownExport));
}

#[test]
fn pre_hook_with_known_signature_calls_the_original_last() {
    let mut d = known("Foo");
    d.attributes.push(attribute("pre_hook", "#[pre_hook(sig = \"known\")]"));
    assert_eq!(
        pre_hook(&exports(), ProxySignatureType::Known, &d),
        Ok("#[no_mangle]\npub extern \"system\" fn Foo(a: i32, b: u8, ) -> i32 {\n    wait_dll_proxy_init();\n    let orig_func: fn (i32, u8, ) -> i32 = unsafe { std::mem::transmute(ORIGINAL_FUNCS[Index_Foo]) };\n    println!(\"{} {}\", a, b);\n    orig_func(a, b, )\n}\n".to_string())
    );
}

#[test]
fn pre_hook_without_arguments() {
    let mut d = declaration("bar");
    d.return_type = Some("()".to_string());
    assert_eq!(
        pre_hook(&exports(), ProxySignatureType::Known, &d),
        Ok("pub extern \"C\" fn bar() -> () {\n    wait_dll_proxy_init();\n    let orig_func: fn () -> () = unsafe { std::mem::transmute(ORIGINAL_FUNCS[Index_bar]) };\n    \n    orig_func()\n}\n".to_string())
    );
}

#[test]
fn pre_hook_with_unknown_signature_saves_the_argument_registers() {
    let mut d = declaration("bar");
    d.body = "println!(\"bar\");".to_string();
    d.attributes = vec![
        attribute("pre_hook", "#[pre_hook(sig = \"unknown\")]"),
        attribute("no_mangle", "#[no_mangle]"),
    ];
    let expected = "#[cfg(not(target_arch = \"x86_64\"))]\ncompile_error!(\"Pre-hooks aren't yet implemented for non x86-64\");\n\n#[no_mangle]\npub unsafe extern \"C\" fn Proxygen_PreHook_bar() {\n    let orig_func: fn () = std::mem::transmute(ORIGINAL_FUNCS[Index_bar]);\n    println!(\"bar\");\n}\n\n#[no_mangle]\n#[naked]\npub unsafe extern \"C\" fn bar() {\n    asm!(\n        \"call {wait_dll_proxy_init}\",\n        \"mov rax, qword ptr [rip + {ORIG_FUNCS_PTR}]\",\n        \"add rax, {orig_index} * 8\",\n        \"mov rax, qword ptr [rax]\",\n        \"push rax\",\n        \"push rdi; push rsi; push rcx; push rdx; push r8; push r9\",\n        \"sub rsp, 64\",\n        \"movaps [rsp], xmm0\",\n        \"movaps [rsp + 16], xmm1\",\n        \"movaps [rsp + 32], xmm2\",\n        \"movaps [rsp + 48], xmm3\",\n        \"call {proxygen_pre_hook_func}\",\n        \"movaps xmm3, [rsp + 48]\",\n        \"movaps xmm2, [rsp + 32]\",\n        \"movaps xmm1, [rsp + 16]\",\n        \"movaps xmm0, [rsp]\",\n        \"add rsp, 64\",\n        \"pop r9; pop r8; pop rdx; pop rcx; pop rsi; pop rdi\",\n        \"ret\",\n        wait_dll_proxy_init = sym wait_dll_proxy_init,\n        ORIG_FUNCS_PTR = sym ORIG_FUNCS_PTR,\n        orig_index = const Index_bar,\n        proxygen_pre_hook_func = sym Proxygen_PreHook_bar,\n        options(noreturn)\n    );\n}\n";
    assert_eq!(pre_hook(&exports(), ProxySignatureType::Unknown, &d), Ok(expected.to_string()));
}

#[test]
fn pre_hook_with_unknown_signature_declares_nothing() {
    let set = exports();
    let mut d = declaration("bar");
    d.parameters = vec![parameter("a", "i32")];
    assert_eq!(
        pre_hook(&set, ProxySignatureType::Unknown, &d),
        Err(GenerationError::ArgumentsNotAllowed)
    );
    d = declaration("bar");
    d.return_type = Some("u8".to_string());
    assert_eq!(
        pre_hook(&set, ProxySignatureType::Unknown, &d),
        Err(GenerationError::ReturnTypeNotAllowed)
    );
    d = declaration("bar");
    d.has_receiver = true;
    assert_eq!(
        pre_hook(&set, ProxySignatureType::Unknown, &d),
        Err(GenerationError::ReceiverParameter)
    );
    assert_eq!(
        pre_hook(&set, ProxySignatureType::Unknown, &declaration("nobody")),
        Err(GenerationError::UnknownExport)
    );
}

#[test]
fn known_signature_takes_plain_names_only() {
    let set = exports();
    for bad in ["Vec<u8>", "*const u8", "&str", "std::ffi::c_int", "", "(u8, u8)"] {
        let mut d = known("Foo");
        d.parameters = vec![parameter("a", bad)];
        assert_eq!(
            pre_hook(&set, ProxySignatureType::Known, &d),
            Err(GenerationError::UnsupportedSignature),
            "{}",
            bad
        );
        let mut d = known("Foo");
        d.return_type = Some(bad.to_string());
        assert_eq!(
            post_hook(&set, ProxySignatureType::Known, &d),
            Err(GenerationError::UnsupportedSignature),
            "{}",
            bad
        );
    }
    let mut d = known("Foo");
    d.parameters = vec![parameter("(a, b)", "Pair")];
    assert_eq!(proxy(&set, ProxySignatureType::Known, &d), Err(GenerationError::UnsupportedSignature));
    let mut d = known("Foo");
    d.has_receiver = true;
    assert_eq!(proxy(&set, ProxySignatureType::Known, &d), Err(GenerationError::ReceiverParameter));
    assert_eq!(
        proxy(&set, ProxySignatureType::Known, &known("nobody")),
        Err(GenerationError::UnknownExport)
    );
}

#[test]
fn post_hook_binds_the_result_of_the_original() {
    let mut d = known("Foo");
    d.body = "orig_result += 1;".to_string();
    d.attributes = vec![attribute("post_hook", "#[post_hook(sig = \"known\")]")];
    assert_eq!(
        post_hook(&exports(), ProxySignatureType::Known, &d),
        Ok("pub extern \"system\" fn Foo(a: i32, b: u8, ) -> i32 {\n    wait_dll_proxy_init();\n    let orig_func: fn (i32, u8, ) -> i32 = unsafe { std::mem::transmute(ORIGINAL_FUNCS[Index_Foo]) };\n    let mut orig_result = orig_func(a, b, );\n    orig_result += 1;\n    orig_result\n}\n".to_string())
    );
}

#[test]
fn post_hook_needs_a_known_signature() {
    assert_eq!(
        post_hook(&exports(), ProxySignatureType::Unknown, &declaration("bar")),
        Err(GenerationError::SignatureMustBeKnown)
    );
    assert_eq!(
        post_hook(&exports(), ProxySignatureType::Unknown, &declaration("nobody")),
        Err(GenerationError::SignatureMustBeKnown)
    );
}

#[test]
fn proxy_brings_the_original_into_scope() {
    let mut d = known("Foo");
    d.body = "orig_func(b as i32, 0)".to_string();
    d.attributes = vec![attribute("proxy", "#[proxy(sig = \"known\")]")];
    assert_eq!(
        proxy(&exports(), ProxySignatureType::Known, &d),
        Ok("pub extern \"system\" fn Foo(a: i32, b: u8, ) -> i32 {\n    wait_dll_proxy_init();\n    let orig_func: fn (i32, u8, ) -> i32 = unsafe { std::mem::transmute(ORIGINAL_FUNCS[Index_Foo]) };\n    orig_func(b as i32, 0)\n}\n".to_string())
    );
    assert_eq!(
        proxy(&exports(), ProxySignatureType::Unknown, &d),
        Err(GenerationError::SignatureMustBeKnown)
    );
}

#[test]
fn emitted_hook_is_read_as_an_interceptor() {
    let text = pre_hook(&exports(), ProxySignatureType::Known, &known("Foo")).unwrap();
    let found: Vec<String> = proxygen::recover::recover_intercepted(&text)
        .iter()
        .map(|v| v.iter().collect())
        .collect();
    assert_eq!(found, vec!["Foo"]);
}

#[test]
fn a_hook_keeps_what_was_declared_before_its_name() {
    let mut d = known("Foo");
    d.is_unsafe = true;
    d.attributes = Vec::new();
    d.body = String::new();
    let head = |qualifiers: &str| {
        format!(
            "{}fn Foo(a: i32, b: u8, ) -> i32 {{\n    wait_dll_proxy_init();\n    let orig_func: fn (i32, u8, ) -> i32 = unsafe {{ std::mem::transmute(ORIGINAL_FUNCS[Index_Foo]) }};\n    \n}}\n",
            qualifiers
        )
    };
    assert_eq!(proxy(&exports(), ProxySignatureType::Known, &d), Ok(head("pub unsafe extern \"system\" ")));
    d.is_public = false;
    assert_eq!(proxy(&exports(), ProxySignatureType::Known, &d), Ok(head("unsafe extern \"system\" ")));
    d.abi = None;
    assert_eq!(proxy(&exports(), ProxySignatureType::Known, &d), Ok(head("unsafe ")));
    d.is_unsafe = false;
    assert_eq!(proxy(&exports(), ProxySignatureType::Known, &d), Ok(head("")));
    d.is_public = true;
    assert_eq!(proxy(&exports(), ProxySignatureType::Known, &d), Ok(head("pub ")));
}

#[test]
fn a_hook_with_a_known_signature_is_not_generic() {
    let mut d = known("Foo");
    d.has_generics = true;
    for kind in [ProxySignatureType::Known] {
        assert_eq!(pre_hook(&exports(), kind, &d), Err(GenerationError::UnsupportedSignature));
        assert_eq!(post_hook(&exports(), kind, &d), Err(GenerationError::UnsupportedSignature));
        assert_eq!(proxy(&exports(), kind, &d), Err(GenerationError::UnsupportedSignature));
    }
}
