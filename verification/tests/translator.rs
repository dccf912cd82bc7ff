use rbmc::emit::emit;
use rbmc::filter::FilterSet;
use rbmc::model::{
    CallSite, FieldDecl, FilterPolicy, FunctionDecl, ParamDecl, ParamMode, Program, RetDecl,
    SrcType, TypeRef,
};
use rbmc::translate::{translate, TransError};

fn field(name: &str, ty: SrcType) -> FieldDecl {
    FieldDecl { name: name.to_string(), ty }
}

fn param(name: &str, ty: SrcType) -> ParamDecl {
    ParamDecl { name: name.to_string(), ty }
}

fn func(name: &str, params: Vec<ParamDecl>, ret: RetDecl, body: Vec<CallSite>) -> FunctionDecl {
    FunctionDecl { name: name.to_string(), params, ret, body }
}

fn init_fn() -> FunctionDecl {
    func(
        "crust_init",
        vec![],
        RetDecl::Tuple(vec![SrcType::Struct(0)]),
        vec![],
    )
}

/// One struct `S { x: int }`, a zero-argument initializer returning `(S,)`,
/// and a consuming method `get(self) -> int`.
fn one_struct_program() -> Program {
    Program {
        structs: vec![sdecl("S", vec![field("x", SrcType::Int)])],
        funcs: vec![init_fn(), func(
            "get",
            vec![param("self", SrcType::Struct(0))],
            RetDecl::Single(SrcType::Int),
            vec![],
        )],
        methods: vec![],
    }
}

fn sdecl(name: &str, fields: Vec<FieldDecl>) -> rbmc::model::StructDecl {
    rbmc::model::StructDecl { name: name.to_string(), fields }
}

#[test]
fn scenario_one_struct_consuming_method() {
    let p = one_struct_program();
    let filter = FilterSet::new();
    let u = translate(&p, &filter, FilterPolicy::Exclude).unwrap();
    assert_eq!(u.structs.len(), 1);
    assert_eq!(u.structs[0].name, "S");
    assert_eq!(u.structs[0].fields.len(), 1);
    assert_eq!(u.structs[0].fields[0].name, "x");
    assert!(matches!(u.structs[0].fields[0].ty, TypeRef::Int));
    assert_eq!(u.functions.len(), 1);
    assert_eq!(u.functions[0].name, "get");
    assert_eq!(u.functions[0].params.len(), 1);
    assert_eq!(u.functions[0].params[0].name, "self");
    assert_eq!(u.functions[0].params[0].mode, ParamMode::ByValue);
    assert!(matches!(u.functions[0].params[0].ty, TypeRef::Struct(0)));
    assert!(matches!(u.functions[0].ret, TypeRef::Int));
    assert_eq!(u.init.name, "crust_init");
    assert_eq!(u.init.roots, vec![0u32]);
}

#[test]
fn emitted_artifact_exact_text() {
    let p = one_struct_program();
    let filter = FilterSet::new();
    let u = translate(&p, &filter, FilterPolicy::Exclude).unwrap();
    let text = emit(&u);
    assert_eq!(
        text,
        "struct S { x: int; }\nfn get(self: S; ) -> int calls \ninit crust_init roots S; calls \n"
    );
}

#[test]
fn two_runs_are_byte_identical() {
    let filter = FilterSet::new();
    let u1 = translate(&one_struct_program(), &filter, FilterPolicy::Exclude).unwrap();
    let u2 = translate(&one_struct_program(), &filter, FilterPolicy::Exclude).unwrap();
    assert_eq!(emit(&u1), emit(&u2));
}

/// Two reference-taking methods with independent lifetime annotations on
/// parameters and return.
fn ref_methods_program(lt_a: Option<u32>, lt_b: Option<u32>) -> Program {
    Program {
        structs: vec![sdecl("S", vec![field("x", SrcType::Int)])],
        funcs: vec![
            init_fn(),
            func(
                "peek",
                vec![param(
                    "self",
                    SrcType::Ref(Box::new(SrcType::Struct(0)), false, lt_a),
                )],
                RetDecl::Single(SrcType::Ref(Box::new(SrcType::Int), false, lt_b)),
                vec![],
            ),
            func(
                "poke",
                vec![param(
                    "self",
                    SrcType::Ref(Box::new(SrcType::Struct(0)), true, lt_b),
                )],
                RetDecl::Single(SrcType::Int),
                vec![],
            ),
        ],
        methods: vec![],
    }
}

#[test]
fn scenario_reference_methods_lifetimes_erased() {
    let filter = FilterSet::new();
    let u = translate(&ref_methods_program(Some(7), Some(9)), &filter, FilterPolicy::Exclude)
        .unwrap();
    assert_eq!(u.functions.len(), 2);
    assert_eq!(u.functions[0].name, "peek");
    assert_eq!(u.functions[0].params[0].mode, ParamMode::ByImmRef);
    assert!(matches!(u.functions[0].params[0].ty, TypeRef::Struct(0)));
    assert!(matches!(&u.functions[0].ret, TypeRef::Ref(inner, false) if matches!(**inner, TypeRef::Int)));
    assert_eq!(u.functions[1].name, "poke");
    assert_eq!(u.functions[1].params[0].mode, ParamMode::ByMutRef);
    let text = emit(&u);
    assert!(!text.contains('7'));
    assert!(!text.contains('9'));
}

#[test]
fn lifetime_annotations_do_not_change_output() {
    let filter = FilterSet::new();
    let with_lts = translate(&ref_methods_program(Some(1), Some(2)), &filter, FilterPolicy::Exclude)
        .unwrap();
    let without_lts = translate(&ref_methods_program(None, None), &filter, FilterPolicy::Exclude)
        .unwrap();
    assert_eq!(emit(&with_lts), emit(&without_lts));
}

#[test]
fn no_initializer_is_an_error() {
    let p = Program {
        structs: vec![],
        funcs: vec![func("get", vec![], RetDecl::Single(SrcType::Int), vec![])],
        methods: vec![],
    };
    let r = translate(&p, &FilterSet::new(), FilterPolicy::Exclude);
    match r {
        Err(TransError::NoInitializer { candidates }) => assert!(candidates.is_empty()),
        _ => panic!("expected a missing-initializer error"),
    }
}

#[test]
fn two_initializers_are_an_error() {
    let p = Program {
        structs: vec![sdecl("S", vec![])],
        funcs: vec![init_fn(), init_fn()],
        methods: vec![],
    };
    let r = translate(&p, &FilterSet::new(), FilterPolicy::Exclude);
    match r {
        Err(TransError::MultipleInitializers { candidates }) => assert_eq!(candidates.len(), 2),
        _ => panic!("expected a duplicate-initializer error"),
    }
}

#[test]
fn exactly_one_initializer_succeeds() {
    let p = Program {
        structs: vec![sdecl("S", vec![])],
        funcs: vec![init_fn()],
        methods: vec![],
    };
    assert!(translate(&p, &FilterSet::new(), FilterPolicy::Exclude).is_ok());
}

#[test]
fn initializer_must_return_a_tuple_of_structs() {
    let p = Program {
        structs: vec![sdecl("S", vec![])],
        funcs: vec![func("crust_init", vec![], RetDecl::Single(SrcType::Int), vec![])],
        methods: vec![],
    };
    let r = translate(&p, &FilterSet::new(), FilterPolicy::Exclude);
    assert!(matches!(r, Err(TransError::BadInitializerReturn)));
    let p2 = Program {
        structs: vec![sdecl("S", vec![])],
        funcs: vec![func(
            "crust_init",
            vec![],
            RetDecl::Tuple(vec![SrcType::Int]),
            vec![],
        )],
        methods: vec![],
    };
    let r2 = translate(&p2, &FilterSet::new(), FilterPolicy::Exclude);
    assert!(matches!(r2, Err(TransError::BadInitializerReturn)));
}

#[test]
fn unresolved_method_dispatch_is_fatal() {
    let p = Program {
        structs: vec![sdecl("S", vec![])],
        funcs: vec![func(
            "crust_init",
            vec![],
            RetDecl::Tuple(vec![SrcType::Struct(0)]),
            vec![CallSite::Method(0)],
        )],
        methods: vec![None],
    };
    let r = translate(&p, &FilterSet::new(), FilterPolicy::Exclude);
    assert!(matches!(r, Err(TransError::UnresolvedCall)));
}

#[test]
fn reachable_opaque_construct_is_fatal() {
    let p = Program {
        structs: vec![sdecl("S", vec![])],
        funcs: vec![init_fn(), func(
            "weird",
            vec![param("x", SrcType::Opaque)],
            RetDecl::Single(SrcType::Int),
            vec![],
        )],
        methods: vec![],
    };
    let r = translate(&p, &FilterSet::new(), FilterPolicy::Exclude);
    assert!(matches!(r, Err(TransError::UnsupportedConstruct)));
}

#[test]
fn unreachable_opaque_construct_is_tolerated_when_filtered() {
    // under Include, the only roots are the initializer and listed names,
    // so the opaque function stays out of the closure
    let p = Program {
        structs: vec![sdecl("S", vec![])],
        funcs: vec![init_fn(), func(
            "weird",
            vec![param("x", SrcType::Opaque)],
            RetDecl::Single(SrcType::Int),
            vec![],
        )],
        methods: vec![],
    };
    let r = translate(&p, &FilterSet::new(), FilterPolicy::Include);
    assert!(r.is_ok());
    assert_eq!(r.unwrap().functions.len(), 0);
}

#[test]
fn struct_reachable_from_two_functions_is_emitted_once() {
    let p = Program {
        structs: vec![sdecl("S", vec![field("x", SrcType::Int)])],
        funcs: vec![
            init_fn(),
            func(
                "get",
                vec![param("self", SrcType::Struct(0))],
                RetDecl::Single(SrcType::Int),
                vec![],
            ),
            func(
                "touch",
                vec![param("self", SrcType::Ref(Box::new(SrcType::Struct(0)), true, None))],
                RetDecl::Single(SrcType::Bool),
                vec![],
            ),
        ],
        methods: vec![],
    };
    let u = translate(&p, &FilterSet::new(), FilterPolicy::Exclude).unwrap();
    assert_eq!(u.structs.len(), 1);
    let text = emit(&u);
    assert_eq!(text.matches("struct S").count(), 1);
}

#[test]
fn nested_struct_fields_are_extracted_recursively() {
    let p = Program {
        structs: vec![
            sdecl("Outer", vec![field("inner", SrcType::Struct(1))]),
            sdecl("Inner", vec![field("x", SrcType::Int)]),
        ],
        funcs: vec![func(
            "crust_init",
            vec![],
            RetDecl::Tuple(vec![SrcType::Struct(0)]),
            vec![],
        )],
        methods: vec![],
    };
    let u = translate(&p, &FilterSet::new(), FilterPolicy::Exclude).unwrap();
    assert_eq!(u.structs.len(), 2);
    assert_eq!(u.structs[0].name, "Outer");
    assert_eq!(u.structs[1].name, "Inner");
}

#[test]
fn filtered_unreachable_function_is_absent() {
    let mut lines = Vec::new();
    lines.push("helper".to_string());
    let filter = FilterSet::from_lines(&lines);
    let p = Program {
        structs: vec![sdecl("S", vec![])],
        funcs: vec![init_fn(), func(
            "helper",
            vec![],
            RetDecl::Single(SrcType::Int),
            vec![],
        )],
        methods: vec![],
    };
    let u = translate(&p, &filter, FilterPolicy::Exclude).unwrap();
    assert_eq!(u.functions.len(), 0);
    let text = emit(&u);
    assert!(!text.contains("helper"));
}

#[test]
fn filtered_function_reachable_from_initializer_is_kept() {
    let mut lines = Vec::new();
    lines.push("helper".to_string());
    let filter = FilterSet::from_lines(&lines);
    let p = Program {
        structs: vec![sdecl("S", vec![])],
        funcs: vec![
            FunctionDecl {
                name: "crust_init".to_string(),
                params: vec![],
                ret: RetDecl::Tuple(vec![SrcType::Struct(0)]),
                body: vec![CallSite::Direct(1)],
            },
            func("helper", vec![], RetDecl::Single(SrcType::Int), vec![]),
        ],
        methods: vec![],
    };
    let u = translate(&p, &filter, FilterPolicy::Exclude).unwrap();
    assert_eq!(u.functions.len(), 1);
    assert_eq!(u.functions[0].name, "helper");
    assert_eq!(u.init.callees, vec![1u32]);
}

#[test]
fn method_calls_resolve_through_the_dispatch_table() {
    let p = Program {
        structs: vec![sdecl("S", vec![])],
        funcs: vec![
            FunctionDecl {
                name: "crust_init".to_string(),
                params: vec![],
                ret: RetDecl::Tuple(vec![SrcType::Struct(0)]),
                body: vec![CallSite::Method(0)],
            },
            func(
                "concrete_impl",
                vec![param("self", SrcType::Struct(0))],
                RetDecl::Single(SrcType::Int),
                vec![],
            ),
        ],
        methods: vec![Some(1)],
    };
    let u = translate(&p, &FilterSet::new(), FilterPolicy::Exclude).unwrap();
    assert_eq!(u.init.callees, vec![1u32]);
    assert_eq!(u.functions.len(), 1);
    assert_eq!(u.functions[0].name, "concrete_impl");
}

#[test]
fn process_runs_the_whole_pass() {
    let p = one_struct_program();
    let text = rbmc::emit::process(&p, &FilterSet::new(), FilterPolicy::Exclude).unwrap();
    assert_eq!(
        text,
        "struct S { x: int; }\nfn get(self: S; ) -> int calls \ninit crust_init roots S; calls \n"
    );
    let empty = Program { structs: vec![], funcs: vec![], methods: vec![] };
    let r = rbmc::emit::process(&empty, &FilterSet::new(), FilterPolicy::Exclude);
    assert!(matches!(r, Err(TransError::NoInitializer { .. })));
}

#[test]
fn well_formedness_check_accepts_and_rejects() {
    assert!(rbmc::model::check_wf(&one_struct_program()));
    // a field referencing a struct the store does not hold
    let dangling = Program {
        structs: vec![sdecl("S", vec![field("x", SrcType::Struct(5))])],
        funcs: vec![init_fn()],
        methods: vec![],
    };
    assert!(!rbmc::model::check_wf(&dangling));
    // two instantiations interned under one name
    let clashing = Program {
        structs: vec![sdecl("S", vec![]), sdecl("S", vec![])],
        funcs: vec![init_fn()],
        methods: vec![],
    };
    assert!(!rbmc::model::check_wf(&clashing));
    // a dispatch entry pointing outside the function table
    let bad_method = Program {
        structs: vec![sdecl("S", vec![])],
        funcs: vec![init_fn()],
        methods: vec![Some(9)],
    };
    assert!(!rbmc::model::check_wf(&bad_method));
}
