use jport::descriptor::VariableType;
use jport::engine::{ClassDecl, Engine, FieldDecl, MethodDecl};
use jport::fatops::{ClassInfo, FatOp};
use jport::heap::{ObjectHeap, Value};
use jport::import::JavaClassFile;
use jport::interp::{CallError, NativeMethods, NoNatives};
use jport::opcodes::OpCode;

const DEPTH: u32 = 16;
const FUEL: u64 = 1_000_000;

fn static_method(name: &str, descriptor: &str, code: Vec<(OpCode, u16)>, max_locals: u16) -> MethodDecl {
    MethodDecl {
        name: name.to_owned(),
        descriptor: descriptor.to_owned(),
        is_static: true,
        code: Some((code, max_locals)),
    }
}

fn binary_int_method(name: &str, op: OpCode) -> MethodDecl {
    static_method(
        name,
        "(II)I",
        vec![
            (OpCode::ILoad(0), 0),
            (OpCode::ILoad(1), 1),
            (op, 2),
            (OpCode::IReturn, 3),
        ],
        2,
    )
}

#[test]
fn arithmetic_matches_native_integers() {
    let mut engine = Engine::new(NoNatives);
    let decl = ClassDecl {
        name: "math/Calc".to_owned(),
        fields: vec![],
        methods: vec![
            binary_int_method("add", OpCode::IAdd),
            binary_int_method("sub", OpCode::ISub),
            binary_int_method("mul", OpCode::IMul),
            binary_int_method("div", OpCode::IDiv),
            binary_int_method("rem", OpCode::IRem),
        ],
    };
    engine.load_class_decl(&decl, &JavaClassFile::synthetic()).unwrap();
    let add = engine.method_handle("math_sCalc::add(II)I").unwrap();
    let sub = engine.method_handle("math_sCalc::sub(II)I").unwrap();
    let mul = engine.method_handle("math_sCalc::mul(II)I").unwrap();
    let div = engine.method_handle("math_sCalc::div(II)I").unwrap();
    let rem = engine.method_handle("math_sCalc::rem(II)I").unwrap();
    for a in 0..100i32 {
        for b in 0..100i32 {
            let args = vec![Value::Int(a), Value::Int(b)];
            assert_eq!(engine.call(add, args.clone(), DEPTH, FUEL), Ok(Value::Int(a + b)));
            assert_eq!(engine.call(sub, args.clone(), DEPTH, FUEL), Ok(Value::Int(a - b)));
            assert_eq!(engine.call(mul, args.clone(), DEPTH, FUEL), Ok(Value::Int(a * b)));
            if b >= 1 {
                assert_eq!(engine.call(div, args.clone(), DEPTH, FUEL), Ok(Value::Int(a / b)));
                assert_eq!(engine.call(rem, args, DEPTH, FUEL), Ok(Value::Int(a % b)));
            }
        }
    }
}

#[test]
fn division_truncates_toward_zero() {
    let mut engine = Engine::new(NoNatives);
    let decl = ClassDecl {
        name: "math/Calc".to_owned(),
        fields: vec![],
        methods: vec![
            binary_int_method("div", OpCode::IDiv),
            binary_int_method("rem", OpCode::IRem),
        ],
    };
    engine.load_class_decl(&decl, &JavaClassFile::synthetic()).unwrap();
    let div = engine.method_handle("math_sCalc::div(II)I").unwrap();
    let rem = engine.method_handle("math_sCalc::rem(II)I").unwrap();
    for (a, b) in [(-7, 2), (7, -2), (-7, -2), (i32::MIN, -1), (5, 3), (-5, 3)] {
        let args = vec![Value::Int(a), Value::Int(b)];
        assert_eq!(
            engine.call(div, args.clone(), DEPTH, FUEL),
            Ok(Value::Int(a.wrapping_div(b))),
            "dividing {} by {}",
            a,
            b
        );
        assert_eq!(
            engine.call(rem, args, DEPTH, FUEL),
            Ok(Value::Int(a.wrapping_rem(b))),
            "remainder of {} by {}",
            a,
            b
        );
    }
    assert_eq!(
        engine.call(div, vec![Value::Int(1), Value::Int(0)], DEPTH, FUEL),
        Err(CallError::DivisionByZero)
    );
}

#[test]
fn dispatch_returns_chosen_argument() {
    let mut engine = Engine::new(NoNatives);
    let pick = |slot: u8| {
        vec![(OpCode::ILoad(slot), 0), (OpCode::IReturn, 1)]
    };
    let decl = ClassDecl {
        name: "pick/Args".to_owned(),
        fields: vec![],
        methods: vec![
            static_method("first", "(IIIII)I", pick(0), 5),
            static_method("second", "(IIIII)I", pick(1), 5),
            static_method("last", "(IIIII)I", pick(4), 5),
        ],
    };
    engine.load_class_decl(&decl, &JavaClassFile::synthetic()).unwrap();
    let args = vec![
        Value::Int(1),
        Value::Int(2),
        Value::Int(3),
        Value::Int(4),
        Value::Int(5),
    ];
    let first = engine.method_handle("pick_sArgs::first(IIIII)I").unwrap();
    let second = engine.method_handle("pick_sArgs::second(IIIII)I").unwrap();
    let last = engine.method_handle("pick_sArgs::last(IIIII)I").unwrap();
    assert_eq!(engine.call(first, args.clone(), DEPTH, FUEL), Ok(Value::Int(1)));
    assert_eq!(engine.call(second, args.clone(), DEPTH, FUEL), Ok(Value::Int(2)));
    assert_eq!(engine.call(last, args, DEPTH, FUEL), Ok(Value::Int(5)));
}

#[test]
fn reloading_a_class_keeps_its_handle_and_swaps_the_definition() {
    let mut engine = Engine::new(NoNatives);
    let version = |v: i32| ClassDecl {
        name: "re/Load".to_owned(),
        fields: vec![],
        methods: vec![static_method(
            "v",
            "()I",
            vec![(OpCode::IConst(v), 0), (OpCode::IReturn, 1)],
            0,
        )],
    };
    let h1 = engine.load_class_decl(&version(1), &JavaClassFile::synthetic()).unwrap();
    let m1 = engine.method_handle("re_sLoad::v()I").unwrap();
    assert_eq!(engine.call(m1, vec![], DEPTH, FUEL), Ok(Value::Int(1)));

    let h2 = engine.load_class_decl(&version(2), &JavaClassFile::synthetic()).unwrap();
    assert_eq!(h1, h2, "the class handle must survive the re-load");
    let m2 = engine.method_handle("re_sLoad::v()I").unwrap();
    assert_eq!(m1, m2, "the method handle must survive the re-load");
    assert_eq!(
        engine.call(m1, vec![], DEPTH, FUEL),
        Ok(Value::Int(2)),
        "the old handle must observe the new definition"
    );
}

#[test]
fn heap_handles_are_strictly_increasing() {
    let mut heap = ObjectHeap::new();
    let mut last = heap.new_obj(0, 2);
    for round in 0..50usize {
        heap.set_field(last, 0, Value::Int(round as i32));
        let _ = heap.get_field(last, 0);
        let h = if round % 2 == 0 {
            heap.new_array(Value::Int(0), round % 7)
        } else {
            heap.new_obj(0, 1)
        };
        assert!(h > last, "handle {} was not above {}", h, last);
        last = h;
    }
    let mut last_slot = heap.insert_static(Value::Void);
    for round in 0..50i32 {
        heap.set_static(last_slot, Value::Int(round));
        let _ = heap.get_static(last_slot);
        let s = heap.insert_static(Value::Int(round));
        assert!(s > last_slot);
        last_slot = s;
    }
}

#[test]
fn null_handle_is_reserved() {
    let heap = ObjectHeap::new();
    assert_eq!(heap.object_count(), 1);
}

struct PlusFive;

impl NativeMethods for PlusFive {
    fn call_native(
        &mut self,
        _method: usize,
        args: &Vec<Value>,
        _heap: &mut ObjectHeap,
    ) -> Result<Value, CallError> {
        match args.first() {
            Some(Value::Int(v)) => Ok(Value::Int(v + 5)),
            _ => Err(CallError::OperandType),
        }
    }
}

#[test]
fn native_substitution_takes_effect_immediately() {
    let mut engine = Engine::new(PlusFive);
    // The callee starts as an interpreted stub returning the default 0.
    engine.bind_method(
        "ext_sLib::ext(I)I",
        vec![FatOp::IConst(0), FatOp::IReturn],
        1,
    );
    // The caller forwards its argument to the callee.
    let caller = engine.bind_method(
        "app_sMain::run(I)I",
        vec![
            FatOp::ILoad(0),
            FatOp::InvokeStatic(
                ClassInfo::from_java_path("ext/Lib"),
                "ext(I)I".to_owned(),
                vec![VariableType::Int],
                VariableType::Int,
            ),
            FatOp::IReturn,
        ],
        1,
    );
    for x in [0, 1, 7, -3] {
        assert_eq!(engine.call(caller, vec![Value::Int(x)], DEPTH, FUEL), Ok(Value::Int(0)));
    }
    // Registering the native rebinds the same handle; every later call sees
    // the substitution.
    engine.register_native("ext_sLib::ext(I)I");
    for x in [0, 1, 7, -3] {
        assert_eq!(
            engine.call(caller, vec![Value::Int(x)], DEPTH, FUEL),
            Ok(Value::Int(x + 5))
        );
    }
}

#[test]
fn virtual_dispatch_uses_the_runtime_class() {
    let mut engine = Engine::new(NoNatives);
    let with_get = |name: &str, v: i32| ClassDecl {
        name: name.to_owned(),
        fields: vec![],
        methods: vec![MethodDecl {
            name: "get".to_owned(),
            descriptor: "()I".to_owned(),
            is_static: false,
            code: Some((vec![(OpCode::IConst(v), 0), (OpCode::IReturn, 1)], 1)),
        }],
    };
    engine.load_class_decl(&with_get("vt/A", 7), &JavaClassFile::synthetic()).unwrap();
    engine.load_class_decl(&with_get("vt/B", 9), &JavaClassFile::synthetic()).unwrap();
    let call_get_on_new = |class: &str| {
        vec![
            FatOp::New(ClassInfo::from_java_path(class)),
            FatOp::InvokeVirtual(
                ClassInfo::from_java_path(class),
                "get()I".to_owned(),
                vec![],
                VariableType::Int,
            ),
            FatOp::IReturn,
        ]
    };
    let main_a = engine.bind_method("vt_sMain::a()I", call_get_on_new("vt/A"), 0);
    let main_b = engine.bind_method("vt_sMain::b()I", call_get_on_new("vt/B"), 0);
    assert_eq!(engine.call(main_a, vec![], DEPTH, FUEL), Ok(Value::Int(7)));
    assert_eq!(engine.call(main_b, vec![], DEPTH, FUEL), Ok(Value::Int(9)));
}

#[test]
fn fields_and_statics_read_back_what_was_written() {
    let mut engine = Engine::new(NoNatives);
    let decl = ClassDecl {
        name: "st/Box".to_owned(),
        fields: vec![
            FieldDecl { name: "x".to_owned(), is_static: false },
            FieldDecl { name: "c".to_owned(), is_static: true },
        ],
        methods: vec![],
    };
    engine.load_class_decl(&decl, &JavaClassFile::synthetic()).unwrap();
    let ci = ClassInfo::from_java_path("st/Box");
    let body = vec![
        FatOp::IConst(41),
        FatOp::IPutStatic(ci.clone(), "c".to_owned()),
        FatOp::New(ci.clone()),
        FatOp::AStore(0),
        FatOp::ALoad(0),
        FatOp::IConst(1),
        FatOp::IPutField(ci.clone(), "x".to_owned()),
        FatOp::ALoad(0),
        FatOp::IGetField(ci.clone(), "x".to_owned()),
        FatOp::IGetStatic(ci.clone(), "c".to_owned()),
        FatOp::IAdd,
        FatOp::IReturn,
    ];
    let m = engine.bind_method("st_sMain::run()I", body, 1);
    assert_eq!(engine.call(m, vec![], DEPTH, FUEL), Ok(Value::Int(42)));
}

#[test]
fn branches_and_loops_run_to_their_result() {
    let mut engine = Engine::new(NoNatives);
    // Sums the integers 1..=n with a conditional backward branch.
    let decl = ClassDecl {
        name: "lp/Sum".to_owned(),
        fields: vec![],
        methods: vec![static_method(
            "sum",
            "(I)I",
            vec![
                (OpCode::IConst(0), 0),
                (OpCode::IStore(1), 1),
                (OpCode::ILoad(0), 2),
                (OpCode::IfZero(10), 3),
                (OpCode::ILoad(1), 5),
                (OpCode::ILoad(0), 6),
                (OpCode::IAdd, 7),
                (OpCode::IStore(1), 8),
                (OpCode::IInc(0, -1), 9),
                (OpCode::GoTo(-9), 11),
                (OpCode::ILoad(1), 13),
                (OpCode::IReturn, 14),
            ],
            2,
        )],
    };
    engine.load_class_decl(&decl, &JavaClassFile::synthetic()).unwrap();
    let sum = engine.method_handle("lp_sSum::sum(I)I").unwrap();
    assert_eq!(engine.call(sum, vec![Value::Int(10)], DEPTH, FUEL), Ok(Value::Int(55)));
    assert_eq!(engine.call(sum, vec![Value::Int(0)], DEPTH, FUEL), Ok(Value::Int(0)));
}

#[test]
fn missing_method_is_the_recoverable_failure() {
    let mut engine = Engine::new(NoNatives);
    assert_eq!(
        engine.call(0, vec![], DEPTH, FUEL),
        Err(CallError::MethodNotFound)
    );
    assert!(engine.method_handle("no_sSuch::thing()V").is_none());
}

#[test]
fn invoke_dynamic_fails_only_when_executed() {
    let mut engine = Engine::new(NoNatives);
    let m = engine.bind_method("dy_sMain::run()V", vec![FatOp::InvokeDynamic], 0);
    assert_eq!(engine.call(m, vec![], DEPTH, FUEL), Err(CallError::UnsupportedOp));
}

#[test]
fn arrays_store_and_load_elements() {
    let mut engine = Engine::new(NoNatives);
    let body = vec![
        FatOp::IConst(3),
        FatOp::INewArray,
        FatOp::AStore(0),
        FatOp::ALoad(0),
        FatOp::IConst(1),
        FatOp::IConst(17),
        FatOp::IAStore,
        FatOp::ALoad(0),
        FatOp::IConst(1),
        FatOp::IALoad,
        FatOp::ALoad(0),
        FatOp::ArrayLength,
        FatOp::IAdd,
        FatOp::IReturn,
    ];
    let m = engine.bind_method("ar_sMain::run()I", body, 1);
    assert_eq!(engine.call(m, vec![], DEPTH, FUEL), Ok(Value::Int(20)));
}

#[test]
fn multi_dimensional_arrays_nest() {
    // A 2-by-3 reference array: the outer length plus an inner length is 5,
    // and the inner elements start as null references.
    let outer_plus_inner = run_body(vec![
        FatOp::IConst(2),
        FatOp::IConst(3),
        FatOp::MultiANewArray(ClassInfo::from_java_path("md/T"), 2),
        FatOp::AStore(0),
        FatOp::ALoad(0),
        FatOp::ArrayLength,
        FatOp::ALoad(0),
        FatOp::IConst(1),
        FatOp::AALoad,
        FatOp::ArrayLength,
        FatOp::IAdd,
        FatOp::IReturn,
    ]);
    assert_eq!(outer_plus_inner, Ok(Value::Int(5)));
    let inner_element = run_body(vec![
        FatOp::IConst(2),
        FatOp::IConst(3),
        FatOp::MultiANewArray(ClassInfo::from_java_path("md/T"), 2),
        FatOp::IConst(0),
        FatOp::AALoad,
        FatOp::IConst(2),
        FatOp::AALoad,
        FatOp::AReturn,
    ]);
    assert_eq!(inner_element, Ok(Value::ObjectRef(0)));
    assert_eq!(
        run_body(vec![
            FatOp::IConst(-1),
            FatOp::IConst(3),
            FatOp::MultiANewArray(ClassInfo::from_java_path("md/T"), 2),
            FatOp::AReturn,
        ]),
        Err(CallError::NegativeArraySize)
    );
}

#[test]
fn throw_surfaces_the_exception_object() {
    let mut engine = Engine::new(NoNatives);
    let h = engine.intern_string("boom".to_owned());
    let body = vec![FatOp::ALoad(0), FatOp::Throw];
    let m = engine.bind_method("th_sMain::run()V", body, 1);
    assert_eq!(
        engine.call(m, vec![Value::ObjectRef(h)], DEPTH, FUEL),
        Err(CallError::Thrown(h))
    );
}

/// Binds a fresh zero-argument body and runs it.
fn run_body(body: Vec<FatOp>) -> Result<Value, CallError> {
    let mut engine = Engine::new(NoNatives);
    let m = engine.bind_method("run_sOnce::go()I", body, 2);
    engine.call(m, vec![], DEPTH, FUEL)
}

#[test]
fn stack_shuffles_rearrange_operands() {
    // [.., 2, 9] after swap is [.., 9, 2]; subtraction leaves 9 - 2.
    assert_eq!(
        run_body(vec![
            FatOp::IConst(2),
            FatOp::IConst(9),
            FatOp::Swap,
            FatOp::ISub,
            FatOp::IReturn,
        ]),
        Ok(Value::Int(7))
    );
    // dup doubles the top: 6 + 6.
    assert_eq!(
        run_body(vec![FatOp::IConst(6), FatOp::Dup, FatOp::IAdd, FatOp::IReturn]),
        Ok(Value::Int(12))
    );
    // dup_x1 tucks a copy below: [5, 1] becomes [1, 5, 1]; the swap makes
    // [1, 1, 5], the subtraction 1 - 5 = -4, the addition 1 + -4 = -3.
    assert_eq!(
        run_body(vec![
            FatOp::IConst(5),
            FatOp::IConst(1),
            FatOp::DupX1,
            FatOp::Swap,
            FatOp::ISub,
            FatOp::IAdd,
            FatOp::IReturn,
        ]),
        Ok(Value::Int(-3))
    );
    assert_eq!(
        run_body(vec![
            FatOp::IConst(3),
            FatOp::IConst(4),
            FatOp::Pop,
            FatOp::IReturn,
        ]),
        Ok(Value::Int(3))
    );
}

#[test]
fn shifts_and_narrowing_conversions_are_exact() {
    let shift = |op: FatOp, a: i32, b: i32| {
        run_body(vec![FatOp::IConst(a), FatOp::IConst(b), op, FatOp::IReturn])
    };
    assert_eq!(shift(FatOp::IShl, 1, 5), Ok(Value::Int(32)));
    assert_eq!(shift(FatOp::IShl, 1, 37), Ok(Value::Int(32)));
    assert_eq!(shift(FatOp::IShr, -8, 1), Ok(Value::Int(-4)));
    assert_eq!(shift(FatOp::IUShr, -1, 28), Ok(Value::Int(15)));
    assert_eq!(shift(FatOp::IAnd, 0b1100, 0b1010), Ok(Value::Int(0b1000)));
    assert_eq!(shift(FatOp::IOr, 0b1100, 0b1010), Ok(Value::Int(0b1110)));
    assert_eq!(shift(FatOp::IXOr, 0b1100, 0b1010), Ok(Value::Int(0b0110)));
    let conv = |op: FatOp, a: i32| {
        run_body(vec![FatOp::IConst(a), op, FatOp::IReturn])
    };
    assert_eq!(conv(FatOp::I2B, 0x1FF), Ok(Value::Int(-1)));
    assert_eq!(conv(FatOp::I2B, 0x17F), Ok(Value::Int(127)));
    assert_eq!(conv(FatOp::I2C, -1), Ok(Value::Int(0xFFFF)));
    assert_eq!(conv(FatOp::I2S, 0x18000), Ok(Value::Int(-0x8000)));
    assert_eq!(conv(FatOp::INeg, 11), Ok(Value::Int(-11)));
}

#[test]
fn frame_and_operand_errors_are_reported() {
    assert_eq!(
        run_body(vec![FatOp::IConst(1), FatOp::IAdd, FatOp::IReturn]),
        Err(CallError::StackUnderflow)
    );
    assert_eq!(
        run_body(vec![FatOp::ILoad(5), FatOp::IReturn]),
        Err(CallError::BadLocal)
    );
    assert_eq!(run_body(vec![FatOp::IConst(1)]), Err(CallError::EndOfCode));
    assert_eq!(
        run_body(vec![
            FatOp::AConstNull,
            FatOp::IGetField(ClassInfo::from_java_path("x/Y"), "f".to_owned()),
            FatOp::IReturn,
        ]),
        Err(CallError::NullPointer)
    );
    assert_eq!(
        run_body(vec![
            FatOp::IConst(-1),
            FatOp::INewArray,
            FatOp::AReturn,
        ]),
        Err(CallError::NegativeArraySize)
    );
    assert_eq!(
        run_body(vec![
            FatOp::IConst(3),
            FatOp::INewArray,
            FatOp::IConst(5),
            FatOp::IALoad,
            FatOp::IReturn,
        ]),
        Err(CallError::IndexOutOfBounds)
    );
    assert_eq!(
        run_body(vec![
            FatOp::New(ClassInfo::from_java_path("no/Class")),
            FatOp::AReturn,
        ]),
        Err(CallError::MissingClass)
    );
}

#[test]
fn checked_casts_and_instance_tests() {
    let mut engine = Engine::new(NoNatives);
    let decl = ClassDecl {
        name: "ck/A".to_owned(),
        fields: vec![],
        methods: vec![],
    };
    engine.load_class_decl(&decl, &JavaClassFile::synthetic()).unwrap();
    let decl = ClassDecl {
        name: "ck/B".to_owned(),
        fields: vec![],
        methods: vec![],
    };
    engine.load_class_decl(&decl, &JavaClassFile::synthetic()).unwrap();
    let a = ClassInfo::from_java_path("ck/A");
    let b = ClassInfo::from_java_path("ck/B");
    // A cast to the object's own class passes; a null passes any cast.
    let m = engine.bind_method(
        "ck_sMain::own()I",
        vec![
            FatOp::New(a.clone()),
            FatOp::CheckedCast(a.clone()),
            FatOp::InstanceOf(a.clone()),
            FatOp::IReturn,
        ],
        0,
    );
    assert_eq!(engine.call(m, vec![], DEPTH, FUEL), Ok(Value::Int(1)));
    let m = engine.bind_method(
        "ck_sMain::null_passes()I",
        vec![
            FatOp::AConstNull,
            FatOp::CheckedCast(a.clone()),
            FatOp::InstanceOf(a.clone()),
            FatOp::IReturn,
        ],
        0,
    );
    assert_eq!(engine.call(m, vec![], DEPTH, FUEL), Ok(Value::Int(0)));
    let m = engine.bind_method(
        "ck_sMain::wrong()V",
        vec![
            FatOp::New(a.clone()),
            FatOp::CheckedCast(b.clone()),
            FatOp::Return,
        ],
        0,
    );
    assert_eq!(engine.call(m, vec![], DEPTH, FUEL), Err(CallError::ClassCast));
    let m = engine.bind_method(
        "ck_sMain::not_instance()I",
        vec![
            FatOp::New(a),
            FatOp::InstanceOf(b),
            FatOp::IReturn,
        ],
        0,
    );
    assert_eq!(engine.call(m, vec![], DEPTH, FUEL), Ok(Value::Int(0)));
}

#[test]
fn unbounded_recursion_exhausts_the_nesting_budget() {
    let mut engine = Engine::new(NoNatives);
    let m = engine.bind_method(
        "rc_sMain::spin()I",
        vec![
            FatOp::InvokeStatic(
                ClassInfo::from_java_path("rc/Main"),
                "spin()I".to_owned(),
                vec![],
                VariableType::Int,
            ),
            FatOp::IReturn,
        ],
        0,
    );
    assert_eq!(engine.call(m, vec![], 8, FUEL), Err(CallError::CallDepthExceeded));
}

#[test]
fn branch_if_nonzero_takes_the_branch_on_nonzero() {
    let mut engine = Engine::new(NoNatives);
    // Returns 1 when the argument is nonzero, 0 otherwise.
    let body = vec![
        FatOp::ILoad(0),
        FatOp::IfNotZero(4),
        FatOp::IConst(0),
        FatOp::IReturn,
        FatOp::IConst(1),
        FatOp::IReturn,
    ];
    let m = engine.bind_method("nz_sMain::nz(I)I", body, 1);
    assert_eq!(engine.call(m, vec![Value::Int(0)], DEPTH, FUEL), Ok(Value::Int(0)));
    assert_eq!(engine.call(m, vec![Value::Int(5)], DEPTH, FUEL), Ok(Value::Int(1)));
    assert_eq!(engine.call(m, vec![Value::Int(-5)], DEPTH, FUEL), Ok(Value::Int(1)));
}

#[test]
fn array_statics_read_back_through_their_names() {
    let mut engine = Engine::new(NoNatives);
    let decl = ClassDecl {
        name: "as/Box".to_owned(),
        fields: vec![FieldDecl { name: "arr".to_owned(), is_static: true }],
        methods: vec![],
    };
    engine.load_class_decl(&decl, &JavaClassFile::synthetic()).unwrap();
    let ci = ClassInfo::from_java_path("as/Box");
    let body = vec![
        FatOp::IConst(2),
        FatOp::INewArray,
        FatOp::AAPutStatic {
            class_info: ci.clone(),
            field_name: "arr".to_owned(),
            atype: VariableType::Int,
        },
        FatOp::AAGetStatic {
            class_info: ci,
            static_name: "arr".to_owned(),
            atype: VariableType::Int,
        },
        FatOp::ArrayLength,
        FatOp::IReturn,
    ];
    let m = engine.bind_method("as_sMain::run()I", body, 0);
    assert_eq!(engine.call(m, vec![], DEPTH, FUEL), Ok(Value::Int(2)));
}

#[test]
fn pool_constants_flow_from_class_file_to_execution() {
    // A real constant pool, decoded from bytes, feeds the resolver of a
    // loaded method.
    let mut data: Vec<u8> = vec![0xCA, 0xFE, 0xBA, 0xBE, 0, 0, 0, 52];
    data.extend(4u16.to_be_bytes());
    data.push(3u8);
    data.extend(1234i32.to_be_bytes());
    data.push(1u8);
    data.extend(4u16.to_be_bytes());
    data.extend("cp/K".as_bytes());
    data.push(7u8);
    data.extend(2u16.to_be_bytes());
    data.extend(0u16.to_be_bytes());
    data.extend(3u16.to_be_bytes());
    data.extend(0u16.to_be_bytes());
    data.extend(0u16.to_be_bytes());
    data.extend(0u16.to_be_bytes());
    data.extend(0u16.to_be_bytes());
    data.extend(0u16.to_be_bytes());
    let class_file = jport::import::load_class(&data).unwrap();

    let mut engine = Engine::new(NoNatives);
    let decl = ClassDecl {
        name: "cp/K".to_owned(),
        fields: vec![],
        methods: vec![static_method(
            "k",
            "()I",
            vec![(OpCode::LoadConst(1), 0), (OpCode::IReturn, 1)],
            0,
        )],
    };
    engine.load_class_decl(&decl, &class_file).unwrap();
    let k = engine.method_handle("cp_sK::k()I").unwrap();
    assert_eq!(engine.call(k, vec![], DEPTH, FUEL), Ok(Value::Int(1234)));
}

#[test]
fn runaway_code_exhausts_its_budget() {
    let mut engine = Engine::new(NoNatives);
    let m = engine.bind_method("sp_sMain::spin()V", vec![FatOp::GoTo(0)], 0);
    assert_eq!(engine.call(m, vec![], DEPTH, 10_000), Err(CallError::OutOfFuel));
}
