use header_gen::record::{group_tokens, RecordType};
use header_gen::splitguide::SplitGuide;
use header_gen::splitter::{split_bindings, header_text, SplitError};
use header_gen::text::{chars_to_string, replace_all, str_to_chars};
use header_gen::token::{tokenize, Token, TokenType};

fn chars(s: &str) -> Vec<char> {
    str_to_chars(s)
}

fn guide_of(entries: &[(&str, &[&str])]) -> SplitGuide {
    let mut v: Vec<(Vec<char>, Vec<Vec<char>>)> = Vec::new();
    for (name, rules) in entries {
        let rules_v: Vec<Vec<char>> = rules.iter().map(|r| chars(r)).collect();
        v.push((chars(name), rules_v));
    }
    SplitGuide::from_entries(&v)
}

#[test]
fn typedef_with_braced_body() {
    // the `;` inside the brace body does not terminate the typedef
    let input = chars("typedef struct { int x; } foo_t;");
    let tok = Token::next(input.as_slice()).unwrap();
    assert_eq!(tok.tt, TokenType::Typedef);
    assert_eq!(tok.id, chars("foo_t"));
    assert_eq!(tok.span, input);
}

#[test]
fn const_declaration() {
    let input = chars("const char *bar_baz;");
    let tok = Token::next(input.as_slice()).unwrap();
    assert_eq!(tok.tt, TokenType::Const);
    assert_eq!(tok.id, chars("bar_baz"));
    assert_eq!(tok.span, input);
}

#[test]
fn function_prototype_id_before_last_paren() {
    let input = chars("void do_thing(int x);");
    let tok = Token::next(input.as_slice()).unwrap();
    assert_eq!(tok.tt, TokenType::Function);
    assert_eq!(tok.id, chars("do_thing"));
}

#[test]
fn prototype_containing_const_is_const() {
    let input = chars("bool z_check(const struct z_t *v);");
    let tok = Token::next(input.as_slice()).unwrap();
    assert_eq!(tok.tt, TokenType::Const);
}

#[test]
fn private_typedef_and_define() {
    let t = Token::next(chars("typedef int _hidden_t;").as_slice()).unwrap();
    assert_eq!(t.tt, TokenType::PrivateToken);
    assert_eq!(t.id, chars("_hidden_t"));
    let d = Token::next(chars("#define _PRIVATE 1\nrest").as_slice()).unwrap();
    assert_eq!(d.tt, TokenType::PrivateToken);
    assert_eq!(d.id, chars("_PRIVATE"));
    let p = Token::next(chars("#define PUBLIC 1\nrest").as_slice()).unwrap();
    assert_eq!(p.tt, TokenType::PreprDefine);
    assert_eq!(p.id, chars("PUBLIC"));
}

#[test]
fn includes_quoted_and_angled() {
    let q = Token::next(chars("#include \"foo.h\"\n").as_slice()).unwrap();
    assert_eq!(q.tt, TokenType::PreprInclude);
    assert_eq!(q.id, chars("foo.h"));
    assert_eq!(q.span, chars("#include \"foo.h\""));
    let a = Token::next(chars("#include <stdint.h>\n").as_slice()).unwrap();
    assert_eq!(a.tt, TokenType::PreprInclude);
    assert_eq!(a.id, chars("stdint.h"));
    assert_eq!(a.span, chars("#include <stdint.h>"));
}

#[test]
fn comments_and_whitespace() {
    let b = Token::next(chars("/* hi */ rest").as_slice()).unwrap();
    assert_eq!(b.tt, TokenType::Comment);
    assert_eq!(b.span, chars("/* hi */"));
    let l = Token::next(chars("// hi\nrest").as_slice()).unwrap();
    assert_eq!(l.tt, TokenType::Comment);
    assert_eq!(l.span, chars("// hi"));
    let w = Token::next(chars("  \n\tx").as_slice()).unwrap();
    assert_eq!(w.tt, TokenType::Whitespace);
    assert_eq!(w.span, chars("  \n\t"));
    // an unterminated block comment runs to the end of input
    let u = Token::next(chars("/* open").as_slice()).unwrap();
    assert_eq!(u.span, chars("/* open"));
}

#[test]
fn grammar_error_reports_offset() {
    let input = chars("typedef int a;%%%");
    let err = tokenize(input.as_slice()).unwrap_err();
    assert_eq!(err.offset, 14);
}

#[test]
fn define_without_name_is_grammar_error() {
    assert!(tokenize(chars("#define   \nint f(void);").as_slice()).is_err());
}

#[test]
fn tokenize_round_trip_concatenation() {
    let text = "// lead\n#ifdef X\ntypedef int t_a;\n#endif\nconst char *c_b;\n";
    let toks = tokenize(chars(text).as_slice()).unwrap();
    let mut rebuilt = String::new();
    for t in &toks {
        rebuilt.push_str(&chars_to_string(t.span.as_slice()));
    }
    assert_eq!(rebuilt, text);
}

#[test]
fn conditional_record_keeps_single_classification() {
    // a record opened by #ifdef and closed by #endif around one Function
    // token stays Function, and renders as one conditional block
    let text = "#ifdef X\nvoid f_one(int x);\n#endif\n";
    let toks = tokenize(chars(text).as_slice()).unwrap();
    let recs = group_tokens(toks).unwrap();
    assert_eq!(recs.len(), 2); // the sealed record and the trailing accumulator
    assert_eq!(recs[0].rt, RecordType::Function);
    assert_eq!(recs[0].ids.len(), 1);
    assert_eq!(recs[0].ids[0], chars("f_one"));
    let rendered = chars_to_string(recs[0].render().as_slice());
    assert_eq!(rendered, "#ifdef X\nvoid f_one(int x);\n#endif\n");
}

#[test]
fn unmatched_endif_fails() {
    let text = "typedef int t_a;\n#endif\n";
    let toks = tokenize(chars(text).as_slice()).unwrap();
    assert!(group_tokens(toks).is_err());
}

#[test]
fn nesting_balanced_succeeds() {
    let text = "#ifdef A\n#ifndef B\ntypedef int t_a;\n#endif\n#endif\n";
    let toks = tokenize(chars(text).as_slice()).unwrap();
    let recs = group_tokens(toks).unwrap();
    assert_eq!(recs[0].rt, RecordType::Typedef);
}

#[test]
fn exclusive_rule_overrides_shared() {
    // SplitGuide {"a.h": ["x!"], "b.h": ["x"]}: a record containing id `x`
    // goes only to a.h
    let guide = guide_of(&[("a.h", &["x!"]), ("b.h", &["x"])]);
    let outs = split_bindings(chars("typedef int x;\n").as_slice(), &guide).unwrap();
    assert_eq!(outs.len(), 2);
    let a = chars_to_string(outs[0].1.as_slice());
    let b = chars_to_string(outs[1].1.as_slice());
    assert_eq!(chars_to_string(outs[0].0.as_slice()), "a.h");
    assert_eq!(chars_to_string(outs[1].0.as_slice()), "b.h");
    assert!(a.contains("typedef int x;"));
    assert!(!b.contains("typedef int x;"));
}

#[test]
fn shared_record_lands_in_both_files() {
    let guide = guide_of(&[("a.h", &["x"]), ("b.h", &["x"])]);
    let outs = split_bindings(chars("typedef int x;\n").as_slice(), &guide).unwrap();
    let a = chars_to_string(outs[0].1.as_slice());
    let b = chars_to_string(outs[1].1.as_slice());
    assert!(a.contains("typedef int x;"));
    assert!(b.contains("typedef int x;"));
}

#[test]
fn brand_rule_routes_by_classification() {
    let guide = guide_of(&[("types.h", &[":typedefs"]), ("funcs.h", &[":functions"])]);
    let text = "typedef int t_a;\nvoid f_b(int x);\n";
    let outs = split_bindings(chars(text).as_slice(), &guide).unwrap();
    let types = chars_to_string(outs[0].1.as_slice());
    let funcs = chars_to_string(outs[1].1.as_slice());
    assert!(types.contains("typedef int t_a;"));
    assert!(!types.contains("f_b"));
    assert!(funcs.contains("void f_b(int x);"));
    assert!(!funcs.contains("typedef"));
}

#[test]
fn output_starts_with_banner() {
    let guide = guide_of(&[("a.h", &[":typedefs"])]);
    let outs = split_bindings(chars("typedef int t_a;\n").as_slice(), &guide).unwrap();
    let content = chars_to_string(outs[0].1.as_slice());
    assert!(content.starts_with(header_text()));
}

#[test]
fn comments_emitted_before_code() {
    let guide = guide_of(&[("a.h", &[":typedefs"])]);
    let text = "// about t_a\ntypedef int t_a;\n";
    let outs = split_bindings(chars(text).as_slice(), &guide).unwrap();
    let content = chars_to_string(outs[0].1.as_slice());
    let expected = format!("{}// about t_a\ntypedef int t_a;\n", header_text());
    assert_eq!(content, expected);
}

#[test]
fn missing_requested_id_fails() {
    let guide = guide_of(&[("a.h", &["absent_name"])]);
    let err = split_bindings(chars("typedef int t_a;\n").as_slice(), &guide).unwrap_err();
    match err {
        SplitError::MissingId { id } => assert_eq!(id, chars("absent_name")),
        _ => panic!("expected a missing-identifier error"),
    }
}

#[test]
fn unrouted_record_fails() {
    // a typedef record matching no rule anywhere must fail the run
    let guide = guide_of(&[("a.h", &[":functions"])]);
    let err = split_bindings(chars("typedef int t_a;\n").as_slice(), &guide).unwrap_err();
    match err {
        SplitError::UnusedRecord { ids } => {
            assert_eq!(ids.len(), 1);
            assert_eq!(ids[0], chars("t_a"));
        },
        _ => panic!("expected an unused-record error"),
    }
}

#[test]
fn private_record_needs_no_routing() {
    let guide = guide_of(&[("a.h", &[":functions"])]);
    let outs = split_bindings(chars("typedef int _priv_t;\n").as_slice(), &guide).unwrap();
    let content = chars_to_string(outs[0].1.as_slice());
    assert_eq!(content, header_text());
}

#[test]
fn pipeline_is_idempotent() {
    let guide = guide_of(&[("a.h", &[":typedefs", "f_b"]), ("b.h", &[":functions"])]);
    let text = "// doc\ntypedef int t_a;\n#ifdef X\nvoid f_b(int y);\n#endif\n";
    let once = split_bindings(chars(text).as_slice(), &guide).unwrap();
    let twice = split_bindings(chars(text).as_slice(), &guide).unwrap();
    assert_eq!(once.len(), twice.len());
    for (x, y) in once.iter().zip(twice.iter()) {
        assert_eq!(x.0, y.0);
        assert_eq!(x.1, y.1);
    }
}

#[test]
fn grammar_error_aborts_split() {
    let guide = guide_of(&[("a.h", &[":typedefs"])]);
    let err = split_bindings(chars("%%%").as_slice(), &guide).unwrap_err();
    assert!(matches!(err, SplitError::Grammar { offset: 0 }));
}

#[test]
fn unmatched_endif_aborts_split() {
    let guide = guide_of(&[("a.h", &[":typedefs"])]);
    let err = split_bindings(chars("#endif\n").as_slice(), &guide).unwrap_err();
    assert!(matches!(err, SplitError::UnmatchedEndif { .. }));
}

#[test]
fn replace_all_leftmost_non_overlapping() {
    let run = |s: &str, from: &str, to: &str| {
        chars_to_string(
            replace_all(chars(s).as_slice(), chars(from).as_slice(), chars(to).as_slice())
                .as_slice(),
        )
    };
    assert_eq!(run("A_T_B_T_C", "_T_", "_"), "A_B_C");
    assert_eq!(run("x_t_Tag y", "_t_Tag", "_tag_t"), "x_tag_t y");
    assert_eq!(run("aaa", "aa", "b"), "ba");
    assert_eq!(run("abc", "z", "y"), "abc");
    assert_eq!(run("abc", "", "y"), "abc");
}

#[test]
fn unterminated_typedef_runs_to_end() {
    let input = chars("typedef struct { int x; } foo_t");
    let tok = Token::next(input.as_slice()).unwrap();
    assert_eq!(tok.span, input);
}

#[test]
fn unterminated_include_is_grammar_error() {
    assert!(tokenize(chars("#include \"foo.h").as_slice()).is_err());
    assert!(Token::next(chars("#include <foo.h").as_slice()).is_none());
}

#[test]
fn else_branch_preserved_in_record() {
    // two tokens of the same classification across an #else keep it; the
    // whole conditional stays one record
    let text = "#if A\nvoid f_a(int x);\n#else\nvoid f_b(int x);\n#endif\n";
    let toks = tokenize(chars(text).as_slice()).unwrap();
    let recs = group_tokens(toks).unwrap();
    assert_eq!(recs[0].rt, RecordType::Function);
    let rendered = chars_to_string(recs[0].render().as_slice());
    assert_eq!(rendered, "#if A\nvoid f_a(int x);\n#else\nvoid f_b(int x);\n#endif\n");
}

#[test]
fn mixed_classifications_become_multiple() {
    let text = "#if A\ntypedef int t_a;\n#else\nvoid f_b(int x);\n#endif\n";
    let toks = tokenize(chars(text).as_slice()).unwrap();
    let recs = group_tokens(toks).unwrap();
    assert_eq!(recs[0].rt, RecordType::Multiple);
}

#[test]
fn every_brand_marker_routes_its_classification() {
    let guide = guide_of(&[
        ("d.h", &[":defines"]),
        ("i.h", &[":includes"]),
        ("c.h", &[":const"]),
        ("m.h", &[":multiples"]),
    ]);
    let text = "#define ALPHA 1\n#include <x.h>\nconst int c_a;\n#ifdef X\ntypedef int t_m;\nconst int c_m;\n#endif\n";
    let outs = split_bindings(chars(text).as_slice(), &guide).unwrap();
    let d = chars_to_string(outs[0].1.as_slice());
    let i = chars_to_string(outs[1].1.as_slice());
    let c = chars_to_string(outs[2].1.as_slice());
    let m = chars_to_string(outs[3].1.as_slice());
    assert!(d.contains("#define ALPHA 1"));
    assert!(i.contains("#include <x.h>"));
    assert!(c.contains("const int c_a;"));
    assert!(!c.contains("c_m"));
    assert!(m.contains("#ifdef X\ntypedef int t_m;\nconst int c_m;\n#endif\n"));
}

