use wasm_bindgen_cli_support::{
    replay, Bindgen, DescriptorRun, HostCall, HostCallError, HostFunc, HostValue, ImportDesc,
    ImportPlan, ShimResolver, ValueKind,
};

fn describe(v: i32) -> HostCall {
    HostCall { func: HostFunc::Describe, args: vec![HostValue::I32(v)] }
}

#[test]
fn describe_export_tokens_in_call_order() {
    let calls = vec![describe(10), describe(20), describe(30)];
    assert_eq!(replay(&calls, None).ok().unwrap(), vec![10, 20, 30]);
}

#[test]
fn stray_host_call_fails_without_tokens() {
    let calls = vec![
        describe(1),
        HostCall { func: HostFunc::Unreachable, args: vec![] },
        describe(2),
    ];
    assert_eq!(replay(&calls, None).err(), Some(HostCallError::NotDescribe));
}

#[test]
fn sequential_runs_do_not_share_tokens() {
    let a = replay(&vec![describe(1), describe(2)], None).ok().unwrap();
    let b = replay(&vec![describe(3)], None).ok().unwrap();
    assert_eq!(a, vec![1, 2]);
    assert_eq!(b, vec![3]);
    let run = DescriptorRun::new();
    assert_eq!(run.finish(None).ok().unwrap(), Vec::<u32>::new());
}

#[test]
fn describe_callback_checks_arguments() {
    let mut run = DescriptorRun::new();
    let two = vec![HostValue::I32(1), HostValue::I32(2)];
    assert_eq!(run.invoke(HostFunc::Describe, &two), Err(HostCallError::WrongArity(2)));
    assert_eq!(run.invoke(HostFunc::Describe, &vec![]), Err(HostCallError::WrongArity(0)));
    let wide = vec![HostValue::I64(5)];
    assert_eq!(run.invoke(HostFunc::Describe, &wide), Err(HostCallError::WrongArgType));
    assert_eq!(run.invoke(HostFunc::Describe, &vec![HostValue::I32(-1)]), Ok(()));
    assert_eq!(run.finish(None).ok().unwrap(), vec![4294967295]);
}

#[test]
fn returned_value_is_refused() {
    let calls = vec![describe(7)];
    assert_eq!(replay(&calls, Some(HostValue::I32(0))).err(), Some(HostCallError::ReturnedValue));
}

#[test]
fn only_the_describe_import_reaches_the_callback() {
    let r = ShimResolver;
    assert_eq!(r.resolve_func("__wbindgen_placeholder__", "__wbindgen_describe"), HostFunc::Describe);
    assert_eq!(r.resolve_func("__wbindgen_placeholder__", "__wbindgen_other"), HostFunc::Unreachable);
    assert_eq!(r.resolve_func("env", "__wbindgen_describe"), HostFunc::Unreachable);
    assert_eq!(HostFunc::Describe.index(), 1);
    assert_eq!(HostFunc::Unreachable.index(), 0);
    assert_eq!(HostFunc::from_index(1), HostFunc::Describe);
    assert_eq!(HostFunc::from_index(0), HostFunc::Unreachable);
    assert_eq!(HostFunc::from_index(7), HostFunc::Unreachable);
}

#[test]
fn every_import_kind_resolves() {
    let r = ShimResolver;
    let imports = vec![
        ImportDesc::Func { module: "env".to_string(), field: "f".to_string() },
        ImportDesc::Global { kind: ValueKind::F64, mutable: true },
        ImportDesc::Memory { initial: 2, maximum: Some(10) },
        ImportDesc::Table { initial: 4, maximum: None },
    ];
    let plans: Vec<ImportPlan> = imports.iter().map(|d| r.resolve(d)).collect();
    assert_eq!(plans[0], ImportPlan::Func(HostFunc::Unreachable));
    match plans[1] {
        ImportPlan::Global(g) => {
            assert_eq!(g.value, HostValue::F64Bits(0));
            assert!(g.mutable);
        }
        _ => panic!("expected a global"),
    }
    match plans[2] {
        ImportPlan::Memory(m) => {
            assert_eq!(m.initial_pages, 2);
            assert_eq!(m.maximum_pages, Some(10));
        }
        _ => panic!("expected a memory"),
    }
    match plans[3] {
        ImportPlan::Table(t) => {
            assert_eq!(t.initial, 4);
            assert_eq!(t.maximum, None);
        }
        _ => panic!("expected a table"),
    }
}

#[test]
fn globals_start_at_zero() {
    let r = ShimResolver;
    assert_eq!(r.resolve_global(ValueKind::I32, false).value, HostValue::I32(0));
    assert_eq!(r.resolve_global(ValueKind::I64, true).value, HostValue::I64(0));
    assert_eq!(r.resolve_global(ValueKind::F32, false).value, HostValue::F32Bits(0));
    assert!(!r.resolve_global(ValueKind::F32, false).mutable);
}

#[test]
fn bindgen_builder_sets_options() {
    let mut b = Bindgen::new();
    assert!(b.demangle && !b.nodejs && b.path.is_none());
    b.input_path("in.wasm").nodejs(true).typescript(true).demangle(false).no_modules_global("wb");
    b.browser(true).no_modules(true).debug(true);
    assert_eq!(b.path.as_deref(), Some("in.wasm"));
    assert!(b.nodejs && b.typescript && !b.demangle && b.browser && b.no_modules && b.debug);
    assert_eq!(b.no_modules_global.as_deref(), Some("wb"));
}
