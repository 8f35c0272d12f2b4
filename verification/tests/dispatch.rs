use header_gen::bytes_map::{
    z_bytes_map_check, z_bytes_map_drop, z_bytes_map_get, z_bytes_map_insert_by_copy,
    z_bytes_map_len, z_bytes_map_new, z_bytes_map_null,
};
use header_gen::genheader::{
    create_generics_header, generate_generic_check_c, generate_generic_loan_c,
    generate_generic_loan_cpp,
};
use header_gen::signature::{
    find_call_functions, find_check_functions, find_drop_functions, find_loan_functions,
    find_loan_mut_functions, find_null_functions,
};
use header_gen::text::{chars_to_string, str_to_chars};

fn chars(s: &str) -> Vec<char> {
    str_to_chars(s)
}

#[test]
fn string_conversions_round_trip() {
    let v = str_to_chars("ab");
    assert_eq!(v, vec!['a', 'b']);
    assert_eq!(chars_to_string(v.as_slice()), "ab");
}

#[test]
fn mine_loan_functions() {
    let text = "const struct foo_t *foo_loan(const struct foo_t *foo);\n\
                const struct bar_t *bar_loan(const struct bar_t *bar);\n";
    let sigs = find_loan_functions(chars(text).as_slice());
    assert_eq!(sigs.len(), 2);
    assert_eq!(sigs[0].func_name, chars("foo_loan"));
    assert_eq!(sigs[0].return_type, chars("foo_t"));
    assert_eq!(sigs[0].arg_type_and_name[0].typename, chars("foo_t"));
    assert_eq!(sigs[0].arg_type_and_name[0].cv, chars("const"));
    assert_eq!(sigs[0].arg_type_and_name[0].name, chars("foo"));
    assert_eq!(sigs[1].func_name, chars("bar_loan"));
}

#[test]
fn loan_table_selects_per_type() {
    // two mined declarations produce a two-entry generic table, selecting
    // foo_loan for foo_t and bar_loan for bar_t
    let decls = "const struct foo_t *foo_loan(const struct foo_t *foo);\n\
                 const struct bar_t *bar_loan(const struct bar_t *bar);\n";
    let sigs = find_loan_functions(chars(decls).as_slice());
    let table = chars_to_string(generate_generic_loan_c(&sigs).as_slice());
    let expected = "#define z_loan(x) \\\n    _Generic((x), \\\n        foo_t : foo_loan, \\\n        bar_t : bar_loan \\\n    )(&x)";
    assert_eq!(table, expected);
}

#[test]
fn mine_loan_mut_and_drop_and_null() {
    let text = "struct foo_t *foo_loan_mut(struct foo_t *foo);\n\
                void foo_drop(struct foo_t *foo);\n\
                void foo_null(struct foo_t *foo);\n";
    let lm = find_loan_mut_functions(chars(text).as_slice());
    assert_eq!(lm.len(), 1);
    assert_eq!(lm[0].func_name, chars("foo_loan_mut"));
    assert_eq!(lm[0].arg_type_and_name[0].cv, chars(""));
    let d = find_drop_functions(chars(text).as_slice());
    assert_eq!(d.len(), 1);
    assert_eq!(d[0].func_name, chars("foo_drop"));
    assert_eq!(d[0].return_type, chars("void"));
    let n = find_null_functions(chars(text).as_slice());
    assert_eq!(n.len(), 1);
    assert_eq!(n[0].func_name, chars("foo_null"));
}

#[test]
fn mine_check_functions() {
    let text = "bool foo_check(const struct foo_t *foo);\n";
    let c = find_check_functions(chars(text).as_slice());
    assert_eq!(c.len(), 1);
    assert_eq!(c[0].func_name, chars("foo_check"));
    assert_eq!(c[0].return_type, chars("bool"));
    let table = chars_to_string(generate_generic_check_c(&c).as_slice());
    let expected =
        "#define z_check(x) \\\n    _Generic((x), \\\n        foo_t : foo_check \\\n    )(&x)";
    assert_eq!(table, expected);
}

#[test]
fn mine_call_functions_with_and_without_qualifier() {
    let text = "int8_t foo_call(const struct foo_closure_t *closure, const struct foo_t *sample);\n\
                void bar_call(const struct bar_closure_t *closure, struct bar_t *reply);\n";
    let c = find_call_functions(chars(text).as_slice());
    assert_eq!(c.len(), 2);
    assert_eq!(c[0].func_name, chars("foo_call"));
    assert_eq!(c[0].return_type, chars("int8_t"));
    assert_eq!(c[0].arg_type_and_name[0].typename, chars("foo_closure_t"));
    assert_eq!(c[0].arg_type_and_name[0].cv, chars("const"));
    assert_eq!(c[0].arg_type_and_name[1].typename, chars("foo_t"));
    assert_eq!(c[0].arg_type_and_name[1].cv, chars("const"));
    assert_eq!(c[1].arg_type_and_name[1].cv, chars(""));
    assert_eq!(c[1].arg_type_and_name[1].name, chars("reply"));
}

#[test]
fn empty_family_still_emits_wellformed_table() {
    let sigs = find_loan_functions(chars("int unrelated(void);\n").as_slice());
    assert_eq!(sigs.len(), 0);
    let table = chars_to_string(generate_generic_loan_c(&sigs).as_slice());
    assert_eq!(table, "#define z_loan(x) \\\n    _Generic((x) \\\n    )(&x)");
}

#[test]
fn loan_overload_set() {
    let decls = "const struct foo_t *foo_loan(const struct foo_t *foo);\n";
    let sigs = find_loan_functions(chars(decls).as_slice());
    let out = chars_to_string(generate_generic_loan_cpp(&sigs).as_slice());
    assert_eq!(
        out,
        "\ninline const foo_t* z_loan(const foo_t* foo) { return foo_loan(foo); };"
    );
}

#[test]
fn generics_header_contains_both_branches() {
    let decls = "const struct foo_t *foo_loan(const struct foo_t *foo);\n";
    let header = chars_to_string(create_generics_header(chars(decls).as_slice()).as_slice());
    assert!(header.starts_with("#pragma once\n// clang-format off\n#ifndef __cplusplus\n\n"));
    assert!(header.contains("#define z_loan(x)"));
    assert!(header.contains("#else  // #ifndef __cplusplus"));
    assert!(header.contains("inline const foo_t* z_loan(const foo_t* foo)"));
    assert!(header.ends_with("\n#endif  // #ifndef __cplusplus"));
    // the empty families still emit stable, well-formed tables
    assert!(header.contains("#define z_drop(x)"));
    assert!(header.contains("#define z_closure(x, callback, dropper, ctx)"));
}

#[test]
fn bytes_map_basics() {
    let mut m = z_bytes_map_new();
    assert!(z_bytes_map_check(&m));
    assert_eq!(z_bytes_map_len(&m), 0);
    z_bytes_map_insert_by_copy(&mut m, b"key", b"value");
    assert_eq!(z_bytes_map_len(&m), 1);
    assert_eq!(z_bytes_map_get(&m, b"key"), Some(b"value".to_vec()));
    assert_eq!(z_bytes_map_get(&m, b"other"), None);
    // replacing a binding keeps the key count
    z_bytes_map_insert_by_copy(&mut m, b"key", b"newer");
    assert_eq!(z_bytes_map_len(&m), 1);
    assert_eq!(z_bytes_map_get(&m, b"key"), Some(b"newer".to_vec()));
    z_bytes_map_insert_by_copy(&mut m, b"second", b"2");
    assert_eq!(z_bytes_map_len(&m), 2);
    z_bytes_map_drop(&mut m);
    assert!(!z_bytes_map_check(&m));
    assert_eq!(z_bytes_map_len(&m), 0);
    // double-drop is safe, and the gravestone ignores inserts
    z_bytes_map_drop(&mut m);
    z_bytes_map_insert_by_copy(&mut m, b"key", b"value");
    assert_eq!(z_bytes_map_get(&m, b"key"), None);
    let g = z_bytes_map_null();
    assert!(!z_bytes_map_check(&g));
}
