use header_gen::opaque_types::{
    find_opaque_types, generate_opaque_types, get_opaque_type_docs, OpaqueError,
};
use header_gen::text::{chars_to_string, str_to_chars};

fn chars(s: &str) -> Vec<char> {
    str_to_chars(s)
}

#[test]
fn find_layout_reports() {
    let data = "noise\ntype: z_owned_session_t, align: 8, size: 48\n\
                more noise type: z_id_t, align: 1, size: 16 tail\n";
    let found = find_opaque_types(chars(data).as_slice());
    assert_eq!(found.len(), 2);
    assert_eq!(found[0].name, chars("z_owned_session_t"));
    assert_eq!(found[0].align, chars("8"));
    assert_eq!(found[0].size, chars("48"));
    assert_eq!(found[1].name, chars("z_id_t"));
}

#[test]
fn docs_keyed_by_marker_name() {
    let source = "/// A session.\n/// Opaque.\nget_opaque_type_data!(Option<Session>, z_owned_session_t);\n\
                  unrelated line\n/// An id.\nget_opaque_type_data!(ZenohId, z_id_t);\n";
    let docs = get_opaque_type_docs(chars(source).as_slice());
    assert_eq!(docs.len(), 2);
    assert_eq!(docs[0].0, chars("z_owned_session_t"));
    assert_eq!(docs[0].1.len(), 2);
    assert_eq!(docs[0].1[0], chars("/// A session."));
    assert_eq!(docs[1].0, chars("z_id_t"));
    assert_eq!(docs[1].1.len(), 1);
}

#[test]
fn interrupted_comment_block_is_discarded() {
    let source = "/// stale\n\nget_opaque_type_data!(Foo, foo_t);\n";
    let docs = get_opaque_type_docs(chars(source).as_slice());
    assert_eq!(docs.len(), 1);
    assert_eq!(docs[0].1.len(), 0);
}

#[test]
fn opaque_module_emission() {
    let data = "type: foo_t, align: 8, size: 24\n";
    let source = "/// A foo.\nget_opaque_type_data!(Foo, foo_t);\n";
    let out = generate_opaque_types(chars(data).as_slice(), chars(source).as_slice()).unwrap();
    let expected = "#[rustfmt::skip]\n#[allow(clippy::all)]\n/// A foo.\r\n\
                    #[derive(Copy, Clone)]\n#[repr(C, align(8))]\npub struct foo_t {\n    _0: [u8; 24],\n}\n";
    assert_eq!(chars_to_string(out.as_slice()), expected);
}

#[test]
fn id_type_keeps_named_field() {
    let data = "type: z_id_t, align: 1, size: 16\n";
    let source = "/// The global id.\nget_opaque_type_data!(ZenohId, z_id_t);\n";
    let out = generate_opaque_types(chars(data).as_slice(), chars(source).as_slice()).unwrap();
    let text = chars_to_string(out.as_slice());
    assert!(text.contains("    id: [u8; 16],"));
}

#[test]
fn undocumented_type_is_fatal() {
    let data = "type: foo_t, align: 8, size: 24\n";
    let err = generate_opaque_types(chars(data).as_slice(), chars("").as_slice()).unwrap_err();
    match err {
        OpaqueError::MissingDoc { name } => assert_eq!(name, chars("foo_t")),
        _ => panic!("expected a missing-documentation error"),
    }
}

#[test]
fn unmatched_documentation_is_fatal() {
    let source = "/// A foo.\nget_opaque_type_data!(Foo, foo_t);\n";
    let err = generate_opaque_types(chars("").as_slice(), chars(source).as_slice()).unwrap_err();
    match err {
        OpaqueError::UnmatchedDoc { name } => assert_eq!(name, chars("foo_t")),
        _ => panic!("expected an unmatched-documentation error"),
    }
}
