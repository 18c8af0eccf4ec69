use minijvm::class::Class;
use minijvm::frame::{param_kinds, Frame, Runtime};
use minijvm::host::Host;
use minijvm::loader::{class_path, search_dir, Loader};
use minijvm::opcodes::Opcodes;
use minijvm::types::{ArrayTypes, Const, MethodAccessFlags, Types, VmError};
use std::collections::HashMap;

struct TestHost {
    files: HashMap<String, Vec<u8>>,
    reads: Vec<String>,
}

impl TestHost {
    fn new() -> TestHost {
        TestHost { files: HashMap::new(), reads: Vec::new() }
    }
}

impl Host for TestHost {
    fn read_file(&mut self, path: &String) -> Option<Vec<u8>> {
        self.reads.push(path.clone());
        self.files.get(path).cloned()
    }

    fn invoke_native(&mut self, class: &Class, name: &String, desc: &String, args: Vec<Types>) -> Option<Types> {
        if class.name == "T" && name == "nat" && desc == "()I" {
            Some(Types::Int(args.len() as i32 + 70))
        } else {
            None
        }
    }

    fn double_add(&mut self, a: u64, b: u64) -> u64 {
        (f64::from_bits(a) + f64::from_bits(b)).to_bits()
    }

    fn double_sub(&mut self, a: u64, b: u64) -> u64 {
        (f64::from_bits(a) - f64::from_bits(b)).to_bits()
    }
}

fn u2(v: &mut Vec<u8>, x: u16) {
    v.extend_from_slice(&x.to_be_bytes());
}

fn utf8(v: &mut Vec<u8>, s: &str) {
    v.push(1);
    u2(v, s.len() as u16);
    v.extend_from_slice(s.as_bytes());
}

fn pair(v: &mut Vec<u8>, tag: u8, a: u16, b: u16) {
    v.push(tag);
    u2(v, a);
    u2(v, b);
}

fn code_attr(v: &mut Vec<u8>, max_locals: u16, code: &[u8]) {
    u2(v, 5);
    v.extend_from_slice(&(8 + code.len() as u32 + 4).to_be_bytes());
    u2(v, 4);
    u2(v, max_locals);
    v.extend_from_slice(&(code.len() as u32).to_be_bytes());
    v.extend_from_slice(code);
    u2(v, 0);
    u2(v, 0);
}

// Pool of the test class "T":
//  1 "T"  2 Class #1  3 "java/lang/Object"  4 Class #3  5 "Code"  6 "run"
//  7 "()I"  8 "F"  9 "I"  10 NameAndType #8 #9  11 Fieldref #2 #10  12 "add"
//  13 "(II)I"  14 NameAndType #12 #13  15 Methodref #2 #14  16 Int 1000
//  17 "hello"  18 String #17  19 Double 1.5 (20 unreadable)  21 Long -2
//  (22 unreadable)  23 "nat"  24 "loop"  25 NameAndType #24 #7  26 Methodref #2 #25
//  27 Class #28  28 "U"
fn pool(v: &mut Vec<u8>) {
    u2(v, 29);
    utf8(v, "T");
    v.push(7);
    u2(v, 1);
    utf8(v, "java/lang/Object");
    v.push(7);
    u2(v, 3);
    utf8(v, "Code");
    utf8(v, "run");
    utf8(v, "()I");
    utf8(v, "F");
    utf8(v, "I");
    pair(v, 0x0c, 8, 9);
    pair(v, 0x09, 2, 10);
    utf8(v, "add");
    utf8(v, "(II)I");
    pair(v, 0x0c, 12, 13);
    pair(v, 0x0a, 2, 14);
    v.push(3);
    v.extend_from_slice(&1000i32.to_be_bytes());
    utf8(v, "hello");
    v.push(8);
    u2(v, 17);
    v.push(6);
    v.extend_from_slice(&1.5f64.to_bits().to_be_bytes());
    v.push(5);
    v.extend_from_slice(&(-2i64).to_be_bytes());
    utf8(v, "nat");
    utf8(v, "loop");
    pair(v, 0x0c, 24, 7);
    pair(v, 0x0a, 2, 25);
    v.push(7);
    u2(v, 28);
    utf8(v, "U");
}

/// Class "T" with static field F:I and methods run()I (the given code), static
/// add(II)I, native nat()I, and static loop()I that calls itself.
fn class_t(run: &[u8], max_locals: u16) -> Vec<u8> {
    let mut v = Vec::new();
    v.extend_from_slice(&0xCAFEBABEu32.to_be_bytes());
    u2(&mut v, 0);
    u2(&mut v, 52);
    pool(&mut v);
    u2(&mut v, 0x21);
    u2(&mut v, 2);
    u2(&mut v, 4);
    u2(&mut v, 0);
    u2(&mut v, 1);
    u2(&mut v, 0x0008);
    u2(&mut v, 8);
    u2(&mut v, 9);
    u2(&mut v, 0);
    u2(&mut v, 4);
    u2(&mut v, 0x0009);
    u2(&mut v, 6);
    u2(&mut v, 7);
    u2(&mut v, 1);
    code_attr(&mut v, max_locals, run);
    u2(&mut v, 0x0009);
    u2(&mut v, 12);
    u2(&mut v, 13);
    u2(&mut v, 1);
    code_attr(&mut v, 2, &[0x1a, 0x1b, 0x60, 0xac]);
    u2(&mut v, 0x0109);
    u2(&mut v, 23);
    u2(&mut v, 7);
    u2(&mut v, 0);
    u2(&mut v, 0x0009);
    u2(&mut v, 24);
    u2(&mut v, 7);
    u2(&mut v, 1);
    code_attr(&mut v, 0, &[0xb8, 0, 26, 0xac]);
    u2(&mut v, 0);
    v
}

fn runtime(run: &[u8], max_locals: u16) -> (Runtime<TestHost>, usize) {
    let mut host = TestHost::new();
    host.files.insert("./T.class".to_string(), class_t(run, max_locals));
    let mut rt = Runtime::new(host, 10_000, 16);
    let name = "T".to_string();
    let h = rt.loader.get_class(&name, &mut rt.host).unwrap();
    (rt, h)
}

fn frame_of(rt: &Runtime<TestHost>, h: usize, name: &str, desc: &str, args: Vec<Types>) -> Result<Frame, VmError> {
    rt.loader.loaded_classes[h].frame(name.to_string(), desc.to_string(), args)
}

fn run_code(run: &[u8], max_locals: u16) -> Result<Types, VmError> {
    let (mut rt, h) = runtime(run, max_locals);
    let mut f = frame_of(&rt, h, "run", "()I", vec![]).unwrap();
    f.exec(&mut rt)
}

fn int_of(r: Result<Types, VmError>) -> i32 {
    match r {
        Ok(Types::Int(i)) => i,
        other => panic!("expected an int, got {:?}", other),
    }
}

#[test]
fn isub_takes_the_second_pushed_from_the_first() {
    assert_eq!(int_of(run_code(&[0x10, 5, 0x10, 3, 0x64, 0xac], 0)), 2);
}

#[test]
fn iconst_iadd_returns_five() {
    assert_eq!(int_of(run_code(&[0x05, 0x06, 0x60, 0xac], 0)), 5);
}

#[test]
fn bipush_sign_extends() {
    assert_eq!(int_of(run_code(&[0x10, 0xfb, 0xac], 0)), -5);
}

#[test]
fn ldc_int_added_to_itself() {
    let code = [0x12, 16, 0x3b, 0x1a, 0x1a, 0x60, 0xac];
    assert_eq!(int_of(run_code(&code, 1)), 2000);
}

#[test]
fn store_and_load_locals() {
    let code = [0x10, 7, 0x3c, 0x10, 9, 0x3b, 0x1b, 0x1a, 0x64, 0xac];
    assert_eq!(int_of(run_code(&code, 2)), -2);
}

#[test]
fn local_out_of_range_underflows() {
    assert_eq!(run_code(&[0x1d, 0xac], 1).unwrap_err(), VmError::StackUnderflow);
}

#[test]
fn pop_on_empty_stack_underflows() {
    assert_eq!(run_code(&[0x57, 0xb1], 0).unwrap_err(), VmError::StackUnderflow);
}

#[test]
fn pop2_drops_one_long() {
    let code = [0x04, 0x0a, 0x58, 0xac];
    assert_eq!(int_of(run_code(&code, 0)), 1);
}

#[test]
fn pop2_drops_two_ints() {
    let code = [0x04, 0x05, 0x06, 0x58, 0xac];
    assert_eq!(int_of(run_code(&code, 0)), 1);
}

#[test]
fn dup_copies_the_top() {
    let code = [0x10, 6, 0x59, 0x60, 0xac];
    assert_eq!(int_of(run_code(&code, 0)), 12);
}

#[test]
fn iadd_on_a_long_is_a_type_mismatch() {
    assert_eq!(run_code(&[0x04, 0x0a, 0x60, 0xac], 0).unwrap_err(), VmError::TypeMismatch);
}

#[test]
fn ldc_pushes_int_and_string_constants() {
    assert_eq!(int_of(run_code(&[0x12, 16, 0xac], 0)), 1000);
    match run_code(&[0x12, 18, 0xb0], 0) {
        Ok(Types::Str(s)) => assert_eq!(s, "hello"),
        other => panic!("{:?}", other),
    }
}

#[test]
fn ldc_of_a_class_loads_it_and_pushes_a_handle() {
    match run_code(&[0x12, 2, 0xb0], 0) {
        Ok(Types::Class(s)) => assert_eq!(s, "T"),
        other => panic!("{:?}", other),
    }
}

#[test]
fn ldc2_w_pushes_double_and_long() {
    match run_code(&[0x14, 0, 19, 0xaf], 0) {
        Ok(Types::Double(d)) => assert_eq!(f64::from_bits(d), 1.5),
        other => panic!("{:?}", other),
    }
    match run_code(&[0x14, 0, 21, 0xad], 0) {
        Ok(Types::Long(l)) => assert_eq!(l, -2),
        other => panic!("{:?}", other),
    }
}

#[test]
fn ldc2_w_on_an_unreadable_slot_fails() {
    assert_eq!(run_code(&[0x14, 0, 20, 0xaf], 0).unwrap_err(), VmError::ConstantPoolError);
}

#[test]
fn dadd_and_dsub_go_through_the_host() {
    match run_code(&[0x14, 0, 19, 0x14, 0, 19, 0x63, 0xaf], 0) {
        Ok(Types::Double(d)) => assert_eq!(f64::from_bits(d), 3.0),
        other => panic!("{:?}", other),
    }
    match run_code(&[0x14, 0, 19, 0x59, 0x63, 0x14, 0, 19, 0x67, 0xaf], 0) {
        Ok(Types::Double(d)) => assert_eq!(f64::from_bits(d), 1.5),
        other => panic!("{:?}", other),
    }
}

#[test]
fn ifge_branches_on_non_negative() {
    // iconst_1; ifge +5 -> ireturn of 2; else 3
    let code = [0x04, 0x9c, 0, 5, 0x06, 0xac, 0x05, 0xac];
    assert_eq!(int_of(run_code(&code, 0)), 2);
    let code = [0x02, 0x9c, 0, 5, 0x06, 0xac, 0x05, 0xac];
    assert_eq!(int_of(run_code(&code, 0)), 3);
}

#[test]
fn if_icmpne_branches_on_difference() {
    let code = [0x04, 0x05, 0xa0, 0, 5, 0x03, 0xac, 0x08, 0xac];
    assert_eq!(int_of(run_code(&code, 0)), 5);
    let code = [0x04, 0x04, 0xa0, 0, 5, 0x03, 0xac, 0x08, 0xac];
    assert_eq!(int_of(run_code(&code, 0)), 0);
}

#[test]
fn backward_branch_counts_down() {
    // local0 = 5; local1 = 0; loop: local1 += local0; local0 -= 1; if local0 >= 0 goto loop... stops at -1
    let code = [
        0x08, 0x3b, 0x03, 0x3c, // 0..3
        0x1b, 0x1a, 0x60, 0x3c, // 4..7: local1 += local0
        0x1a, 0x04, 0x64, 0x3b, // 8..11: local0 -= 1
        0x1a, 0x9c, 0xff, 0xf7, // 12..15: if local0 >= 0 goto 4
        0x1b, 0xac,
    ];
    assert_eq!(int_of(run_code(&code, 2)), 15);
}

#[test]
fn branch_outside_the_code_fails() {
    let code = [0x04, 0x9c, 0x7f, 0x00, 0xac];
    assert_eq!(run_code(&code, 0).unwrap_err(), VmError::ClassFormatError);
}

#[test]
fn endless_loop_hits_the_step_limit() {
    let code = [0x03, 0x9c, 0xff, 0xff];
    assert_eq!(run_code(&code, 0).unwrap_err(), VmError::StepLimit);
}

#[test]
fn running_off_the_code_end_fails() {
    assert_eq!(run_code(&[0x00], 0).unwrap_err(), VmError::ClassFormatError);
}

#[test]
fn newarray_store_and_load() {
    // newarray int[3]; astore_0; aload_0 1 8 iastore; aload_0 1 iaload; ireturn
    let code = [0x06, 0xbc, 10, 0x4b, 0x2a, 0x04, 0x10, 8, 0x4f, 0x2a, 0x04, 0x2e, 0xac];
    assert_eq!(int_of(run_code(&code, 1)), 8);
}

#[test]
fn fresh_array_elements_are_void() {
    let code = [0x06, 0xbc, 10, 0x03, 0x2e, 0xb0];
    assert_eq!(run_code(&code, 0).unwrap(), Types::Void);
}

#[test]
fn array_index_out_of_bounds_fails() {
    let code = [0x06, 0xbc, 10, 0x06, 0x2e, 0xac];
    assert_eq!(run_code(&code, 0).unwrap_err(), VmError::ArrayIndexOutOfBounds);
}

#[test]
fn negative_array_length_fails() {
    let code = [0x02, 0xbc, 10, 0xb0];
    assert_eq!(run_code(&code, 0).unwrap_err(), VmError::ArrayIndexOutOfBounds);
}

#[test]
fn unknown_array_type_fails() {
    let code = [0x04, 0xbc, 3, 0xb0];
    assert_eq!(run_code(&code, 0).unwrap_err(), VmError::ClassFormatError);
}

#[test]
fn putstatic_then_getstatic_returns_the_value() {
    let code = [0x10, 42, 0xb3, 0, 11, 0xb2, 0, 11, 0xac];
    let (mut rt, h) = runtime(&code, 0);
    let mut f = frame_of(&rt, h, "run", "()I", vec![]).unwrap();
    assert_eq!(int_of(f.exec(&mut rt)), 42);
    assert_eq!(rt.loader.read_field(h, 0), Types::Int(42));
}

#[test]
fn getstatic_of_an_unset_field_is_void() {
    let code = [0xb2, 0, 11, 0xb0];
    assert_eq!(run_code(&code, 0).unwrap(), Types::Void);
}

#[test]
fn putfield_then_getfield_through_class_handles() {
    // new T; bipush 9; putfield F; new T; getfield F; ireturn
    let code = [0xbb, 0, 2, 0x10, 9, 0xb5, 0, 11, 0xbb, 0, 2, 0xb4, 0, 11, 0xac];
    assert_eq!(int_of(run_code(&code, 0)), 9);
}

#[test]
fn getfield_on_a_non_handle_is_a_type_mismatch() {
    let code = [0x04, 0xb4, 0, 11, 0xac];
    assert_eq!(run_code(&code, 0).unwrap_err(), VmError::TypeMismatch);
}

#[test]
fn invokestatic_passes_int_arguments_in_order() {
    let code = [0x10, 3, 0x10, 4, 0xb8, 0, 15, 0xac];
    assert_eq!(int_of(run_code(&code, 0)), 7);
}

#[test]
fn invoking_without_enough_arguments_underflows() {
    let code = [0x10, 3, 0xb8, 0, 15, 0xac];
    assert_eq!(run_code(&code, 0).unwrap_err(), VmError::StackUnderflow);
}

#[test]
fn unbounded_recursion_hits_the_recursion_limit() {
    let code = [0xb8, 0, 26, 0xac];
    assert_eq!(run_code(&code, 0).unwrap_err(), VmError::RecursionLimit);
}

#[test]
fn native_method_runs_on_the_host() {
    let (mut rt, h) = runtime(&[0xb1], 0);
    let mut f = frame_of(&rt, h, "nat", "()I", vec![Types::Int(1)]).unwrap();
    assert!(f.native);
    assert_eq!(int_of(f.exec(&mut rt)), 71);
}

#[test]
fn missing_method_is_method_not_found() {
    let (rt, h) = runtime(&[0xb1], 0);
    let r = frame_of(&rt, h, "noSuchMethod", "()V", vec![]);
    assert_eq!(r.unwrap_err(), VmError::MethodNotFound);
    assert_eq!(rt.loader.loaded_classes.len(), 1);
    assert!(frame_of(&rt, h, "run", "()I", vec![]).is_ok());
}

#[test]
fn frame_locals_hold_the_arguments_then_zeros() {
    let (rt, h) = runtime(&[0xb1], 3);
    let f = frame_of(&rt, h, "run", "()I", vec![Types::Int(4)]).unwrap();
    assert_eq!(f.locals, vec![Types::Int(4), Types::Int(0), Types::Int(0)]);
    assert_eq!(f.code, vec![0xb1]);
    assert_eq!(f.ip, 0);
}

#[test]
fn get_class_twice_is_a_cache_hit() {
    let (mut rt, h) = runtime(&[0xb1], 0);
    assert_eq!(rt.host.reads.len(), 1);
    rt.loader.write_field(h, 0, Types::Int(5));
    let name = "T".to_string();
    let h2 = rt.loader.get_class(&name, &mut rt.host).unwrap();
    assert_eq!(h2, h);
    assert_eq!(rt.host.reads.len(), 1);
    assert_eq!(rt.loader.read_field(h2, 0), Types::Int(5));
}

#[test]
fn get_class_searches_the_second_directory() {
    let mut host = TestHost::new();
    host.files.insert("./src/T.class".to_string(), class_t(&[0xb1], 0));
    let mut rt = Runtime::new(host, 100, 4);
    let name = "T".to_string();
    let h = rt.loader.get_class(&name, &mut rt.host).unwrap();
    assert_eq!(rt.loader.loaded_classes[h].name, "T");
    assert_eq!(rt.host.reads, vec!["./T.class".to_string(), "./src/T.class".to_string()]);
}

#[test]
fn get_class_without_a_file_is_class_not_found() {
    let mut rt = Runtime::new(TestHost::new(), 100, 4);
    let name = "Nope".to_string();
    assert_eq!(rt.loader.get_class(&name, &mut rt.host).unwrap_err(), VmError::ClassNotFound);
    assert_eq!(rt.loader.loaded_classes.len(), 0);
}

#[test]
fn get_class_returns_the_class_the_file_declares() {
    let mut host = TestHost::new();
    host.files.insert("./U.class".to_string(), class_t(&[0xb1], 0));
    let mut rt = Runtime::new(host, 100, 4);
    let name = "U".to_string();
    let h = rt.loader.get_class(&name, &mut rt.host).unwrap();
    assert_eq!(rt.loader.loaded_classes.len(), 1);
    assert_eq!(rt.loader.loaded_classes[h].name, "T");
    assert_eq!(rt.loader.find(&"T".to_string()), Some(h));
}

#[test]
fn resolving_a_reference_to_a_misnamed_file_fails() {
    let mut host = TestHost::new();
    host.files.insert("./U.class".to_string(), class_t(&[0xb1], 0));
    let mut rt = Runtime::new(host, 100, 4);
    let name = "U".to_string();
    assert_eq!(rt.loader.resolve_class(&name, &mut rt.host).unwrap_err(), VmError::ClassNotFound);
    assert_eq!(rt.loader.loaded_classes.len(), 1);
}

#[test]
fn first_directory_wins() {
    let mut host = TestHost::new();
    host.files.insert("./T.class".to_string(), class_t(&[0x04, 0xac], 0));
    host.files.insert("./src/T.class".to_string(), class_t(&[0x05, 0xac], 0));
    let mut rt = Runtime::new(host, 100, 4);
    let h = rt.loader.get_class(&"T".to_string(), &mut rt.host).unwrap();
    assert_eq!(rt.host.reads, vec!["./T.class".to_string()]);
    let mut f = frame_of(&rt, h, "run", "()I", vec![]).unwrap();
    assert_eq!(int_of(f.exec(&mut rt)), 1);
}

#[test]
fn class_paths_join_directory_name_and_suffix() {
    assert_eq!(class_path(search_dir(0), &"a/B".to_string()), "./a/B.class");
    assert_eq!(class_path(search_dir(1), &"C".to_string()), "./src/C.class");
}

#[test]
fn accept_file_goes_on_without_a_file() {
    let mut l = Loader::new();
    assert!(l.accept_file(None).is_none());
    assert_eq!(l.accept_file(Some(vec![1, 2])), Some(Err(VmError::ClassFormatError)));
    assert_eq!(l.accept_file(Some(class_t(&[0xb1], 0))), Some(Ok(0)));
    assert_eq!(l.loaded_classes.len(), 1);
}

#[test]
fn class_names_resolve_transitively() {
    let mut l = Loader::new();
    l.load_class(Some(class_t(&[0xb1], 0))).unwrap();
    let cp = &mut l.loaded_classes[0].cp;
    cp.consts[26] = Const::Class(2);
    assert_eq!(cp.resolve(27).unwrap(), "T");
    cp.consts[26] = Const::Class(27);
    assert_eq!(cp.resolve(27).unwrap_err(), VmError::ConstantPoolError);
}

#[test]
fn wide_constant_in_the_last_slot_is_a_format_error() {
    let mut v = Vec::new();
    v.extend_from_slice(&0xCAFEBABEu32.to_be_bytes());
    v.extend_from_slice(&[0, 0, 0, 52, 0, 2, 5]);
    v.extend_from_slice(&7i64.to_be_bytes());
    v.extend_from_slice(&[0; 20]);
    assert_eq!(load(v).1.unwrap_err(), VmError::ClassFormatError);
}

#[test]
fn new_of_a_missing_class_is_class_not_found() {
    let code = [0xbb, 0, 27, 0xb0];
    assert_eq!(run_code(&code, 0).unwrap_err(), VmError::ClassNotFound);
}

#[test]
fn unknown_opcode_leaves_the_stack_untouched() {
    let (mut rt, h) = runtime(&[0x10, 4, 0xff, 0xac], 0);
    let mut f = frame_of(&rt, h, "run", "()I", vec![]).unwrap();
    assert_eq!(f.step(&mut rt, 4).unwrap(), None);
    assert_eq!(f.stack, vec![Types::Int(4)]);
    assert_eq!(f.step(&mut rt, 4).unwrap_err(), VmError::UnsupportedOpcode);
    assert_eq!(f.stack, vec![Types::Int(4)]);
    assert_eq!(f.ip, 2);
}

#[test]
fn pop_returns_the_top() {
    let (mut rt, h) = runtime(&[0x10, 4, 0xac], 0);
    let mut f = frame_of(&rt, h, "run", "()I", vec![]).unwrap();
    f.step(&mut rt, 4).unwrap();
    assert_eq!(f.pop().unwrap(), Types::Int(4));
    assert_eq!(f.pop().unwrap_err(), VmError::StackUnderflow);
}

#[test]
fn pool_get_copies_entries() {
    let (rt, h) = runtime(&[0xb1], 0);
    let cp = &rt.loader.loaded_classes[h].cp;
    assert_eq!(format!("{:?}", cp.get(16).unwrap()), format!("{:?}", Const::Int(1000)));
    assert_eq!(cp.get(0).unwrap_err(), VmError::ConstantPoolError);
    assert_eq!(cp.get(29).unwrap_err(), VmError::ConstantPoolError);
    assert_eq!(cp.resolve(2).unwrap(), "T");
    assert_eq!(cp.resolve(16).unwrap_err(), VmError::ConstantPoolError);
}

fn load(bytes: Vec<u8>) -> (Loader, Result<String, VmError>) {
    let mut l = Loader::new();
    let r = l.load_class(Some(bytes));
    (l, r)
}

#[test]
fn parsing_the_same_bytes_twice_gives_equal_classes() {
    let (a, ra) = load(class_t(&[0x05, 0xac], 0));
    let (b, rb) = load(class_t(&[0x05, 0xac], 0));
    assert_eq!(ra.unwrap(), "T");
    assert_eq!(rb.unwrap(), "T");
    assert_eq!(format!("{:?}", a.loaded_classes[0]), format!("{:?}", b.loaded_classes[0]));
}

#[test]
fn parsed_class_holds_names_members_and_version() {
    let (l, _) = load(class_t(&[0x05, 0xac], 0));
    let c = &l.loaded_classes[0];
    assert_eq!(c.name, "T");
    assert_eq!(c.supr, "java/lang/Object");
    assert_eq!(c.version, (0, 52));
    assert_eq!(c.flags, 0x21);
    assert!(c.interfaces.is_empty());
    assert_eq!(c.fields.len(), 1);
    assert_eq!(c.fields[0].name, "F");
    assert_eq!(c.fields[0].desc, "I");
    assert_eq!(c.fields[0].value, None);
    let names: Vec<&str> = c.methods.iter().map(|m| m.name.as_str()).collect();
    assert_eq!(names, vec!["run", "add", "nat", "loop"]);
    assert_eq!(c.methods[0].attr[0].name, "Code");
}

#[test]
fn wide_constants_take_two_slots() {
    let (l, _) = load(class_t(&[0xb1], 0));
    let consts = &l.loaded_classes[0].cp.consts;
    assert_eq!(consts.len(), 28);
    assert!(matches!(consts[18], Const::Double(_)));
    assert!(matches!(consts[19], Const::Invalid));
    assert!(matches!(consts[20], Const::Long(-2)));
    assert!(matches!(consts[21], Const::Invalid));
    assert!(matches!(&consts[22], Const::Str(s) if s == "nat"));
    let invalid = consts.iter().filter(|c| matches!(c, Const::Invalid)).count();
    assert_eq!(consts.len() - invalid, 26);
}

#[test]
fn bad_magic_is_a_format_error() {
    let mut b = class_t(&[0xb1], 0);
    b[0] = 0;
    assert_eq!(load(b).1.unwrap_err(), VmError::ClassFormatError);
}

#[test]
fn truncated_stream_is_a_format_error() {
    let mut b = class_t(&[0xb1], 0);
    b.truncate(40);
    let (l, r) = load(b);
    assert_eq!(r.unwrap_err(), VmError::ClassFormatError);
    assert!(l.loaded_classes.is_empty());
}

#[test]
fn unknown_tag_is_a_format_error() {
    let mut b = class_t(&[0xb1], 0);
    b[10] = 2;
    assert_eq!(load(b).1.unwrap_err(), VmError::ClassFormatError);
}

#[test]
fn invalid_utf8_is_a_format_error() {
    let mut b = class_t(&[0xb1], 0);
    b[13] = 0xff;
    assert_eq!(load(b).1.unwrap_err(), VmError::ClassFormatError);
}

#[test]
fn this_class_index_of_wrong_kind_is_a_pool_error() {
    let mut v = Vec::new();
    v.extend_from_slice(&0xCAFEBABEu32.to_be_bytes());
    v.extend_from_slice(&[0, 0, 0, 52]);
    pool(&mut v);
    // access flags, then this_class pointing at the int constant
    v.extend_from_slice(&[0, 0x21, 0, 16, 0, 0]);
    assert_eq!(load(v).1.unwrap_err(), VmError::ConstantPoolError);
}

#[test]
fn loading_a_class_twice_keeps_the_first() {
    let mut l = Loader::new();
    assert_eq!(l.load_class(Some(class_t(&[0x05, 0xac], 0))).unwrap(), "T");
    l.write_field(0, 0, Types::Int(3));
    assert_eq!(l.load_class(Some(class_t(&[0x06, 0xac], 0))).unwrap(), "T");
    assert_eq!(l.loaded_classes.len(), 1);
    assert_eq!(l.read_field(0, 0), Types::Int(3));
}

#[test]
fn reader_decodes_big_endian() {
    let mut l = Loader::new();
    l.r = vec![0x12, 0x34, 0x56, 0x78, 0x9a, 0xbc, 0xde, 0xf0, 0x00, 0x02, 0xaa, 0xbb, 0, 0, 0, 1, 0xcc];
    assert_eq!(l.u1().unwrap(), 0x12);
    assert_eq!(l.u2().unwrap(), 0x3456);
    assert_eq!(l.u4().unwrap(), 0x789abcde);
    assert_eq!(l.bytes::<1>().unwrap(), [0xf0]);
    assert_eq!(l.vec_bytes_u2().unwrap(), vec![0xaa, 0xbb]);
    assert_eq!(l.vec_bytes_u4().unwrap(), vec![0xcc]);
    assert_eq!(l.pos, 17);
    assert_eq!(l.u1().unwrap_err(), VmError::ClassFormatError);
    assert_eq!(l.pos, 17);
}

#[test]
fn reader_refuses_reads_past_the_end() {
    let mut l = Loader::new();
    l.r = vec![1, 2, 3];
    assert_eq!(l.u4().unwrap_err(), VmError::ClassFormatError);
    assert_eq!(l.vec_bytes(4).unwrap_err(), VmError::ClassFormatError);
    assert_eq!(l.vec_bytes(3).unwrap(), vec![1, 2, 3]);
    assert_eq!(l.bytes::<1>().unwrap_err(), VmError::ClassFormatError);
}

#[test]
fn method_flags_split_into_bits() {
    let f = MethodAccessFlags::new(0x0109);
    assert!(f.PUBLIC && f.STATIC && f.NATIVE);
    assert!(!f.PRIVATE && !f.FINAL && !f.ABSTRACT && !f.SYNTHETIC);
    let g = MethodAccessFlags::new(0x1c72);
    assert!(g.PRIVATE && g.SYNCHRONIZED && g.BRIDGE && g.ABSTRACT && g.STRICT && g.SYNTHETIC && g.FINAL);
    assert!(!g.PUBLIC && !g.VARARGS);
    assert!(MethodAccessFlags::is_valid(0x0109));
    assert!(!MethodAccessFlags::is_valid(0x0003));
    assert!(!MethodAccessFlags::is_valid(0x0006));
}

#[test]
fn conflicting_method_flags_are_a_format_error() {
    let mut b = class_t(&[0xb1], 0);
    // the first method's flags follow the field table
    let needle = [0x00, 0x09, 0x00, 0x06, 0x00, 0x07];
    let at = b.windows(6).position(|w| w == needle).unwrap();
    b[at + 1] = 0x03;
    let (l, _) = load(b);
    let r = l.loaded_classes[0].frame("run".to_string(), "()I".to_string(), vec![]);
    assert_eq!(r.unwrap_err(), VmError::ClassFormatError);
}

#[test]
fn array_types_decode_their_tags() {
    assert_eq!(ArrayTypes::from_u8(4), Some(ArrayTypes::BOOLEAN));
    assert_eq!(ArrayTypes::from_u8(10), Some(ArrayTypes::INT));
    assert_eq!(ArrayTypes::from_u8(11), Some(ArrayTypes::LONG));
    assert_eq!(ArrayTypes::from_u8(3), None);
    assert_eq!(ArrayTypes::from_u8(12), None);
}

#[test]
fn opcodes_decode_their_bytes() {
    assert_eq!(Opcodes::from_u8(0x02), Some(Opcodes::ICONST(-1)));
    assert_eq!(Opcodes::from_u8(0x08), Some(Opcodes::ICONST(5)));
    assert_eq!(Opcodes::from_u8(0x0a), Some(Opcodes::LCONST(1)));
    assert_eq!(Opcodes::from_u8(0x2d), Some(Opcodes::LOAD(3)));
    assert_eq!(Opcodes::from_u8(0x4b), Some(Opcodes::STORE(0)));
    assert_eq!(Opcodes::from_u8(0xb0), Some(Opcodes::VRETURN));
    assert_eq!(Opcodes::from_u8(0xbc), Some(Opcodes::NEWARRAY));
    assert_eq!(Opcodes::from_u8(0x01), None);
    assert_eq!(Opcodes::from_u8(0xff), None);
}

#[test]
fn descriptors_list_one_kind_per_parameter() {
    assert_eq!(param_kinds(&"(II)I".to_string()).unwrap(), b"II".to_vec());
    assert_eq!(param_kinds(&"()V".to_string()).unwrap(), Vec::<u8>::new());
    assert_eq!(param_kinds(&"(Ljava/lang/Integer;[[JD)V".to_string()).unwrap(), b"L[D".to_vec());
    assert_eq!(param_kinds(&"(ZBCSF[Ljava/lang/String;)V".to_string()).unwrap(), b"ZBCSF[".to_vec());
}

#[test]
fn malformed_descriptors_are_format_errors() {
    for d in ["(I", "II)V", "([)V", "(Q)V", "(Ljava/lang", ""] {
        assert_eq!(param_kinds(&d.to_string()).unwrap_err(), VmError::ClassFormatError, "{}", d);
    }
}

#[test]
fn invoking_with_a_wrong_argument_kind_is_a_type_mismatch() {
    // lconst_1; iconst_1; invokestatic add(II)I
    let code = [0x0a, 0x04, 0xb8, 0, 15, 0xac];
    assert_eq!(run_code(&code, 0).unwrap_err(), VmError::TypeMismatch);
}
