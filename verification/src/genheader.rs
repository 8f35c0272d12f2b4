//! The dispatch generator: from mined signatures it emits, per convention,
//! a type-generic selection table (`_Generic`) and an equivalent overload
//! set, plus a closure-construction helper for the `call` convention.
use vstd::prelude::*;
use crate::signature::{
    FunctionSignature, FunctionSignatureModel, sigs_view, mine_conv_from, mine_call_from,
    Convention, find_convention_functions, find_call_functions,
};
use crate::text::{push_chars, str_to_chars};

verus! {

/// The fourteen emitted blocks: one selection table (`*C`) and one overload
/// set (`*Cpp`) per convention, plus the closure helpers.
#[derive(Debug, Clone, Copy, PartialEq, Eq, Structural)]
pub enum GenKind {
    LoanC,
    LoanMutC,
    DropC,
    NullC,
    CheckC,
    CallC,
    ClosureC,
    LoanCpp,
    LoanMutCpp,
    DropCpp,
    NullCpp,
    CheckCpp,
    CallCpp,
    ClosureCpp,
}

/// How many arguments a signature must carry for this block: the `call`
/// blocks read the payload argument too.
pub open spec fn gen_req(k: GenKind) -> int {
    match k {
        GenKind::CallC | GenKind::ClosureC | GenKind::CallCpp | GenKind::ClosureCpp => 2,
        _ => 1,
    }
}

/// The text a block opens with (empty for the overload sets).
pub open spec fn gen_start(k: GenKind) -> Seq<char> {
    match k {
        GenKind::LoanC => "#define z_loan(x) \\\n    _Generic((x)"@,
        GenKind::LoanMutC => "#define z_loan_mut(x) \\\n    _Generic((x)"@,
        GenKind::DropC => "#define z_drop(x) \\\n    _Generic((x)"@,
        GenKind::NullC => "#define z_null(x) \\\n    _Generic((x)"@,
        GenKind::CheckC => "#define z_check(x) \\\n    _Generic((x)"@,
        GenKind::CallC => "#define z_call(x, ...) \\\n     _Generic((x)"@,
        GenKind::ClosureC => "#define z_closure(x, callback, dropper, ctx) \\\n     _Generic((x)"@,
        _ => ""@,
    }
}

/// The text a block closes with (empty for the overload sets).
pub open spec fn gen_end(k: GenKind) -> Seq<char> {
    match k {
        GenKind::LoanC | GenKind::LoanMutC | GenKind::CheckC => " \\\n    )(&x)"@,
        GenKind::DropC | GenKind::NullC => " \\\n    )(x)"@,
        GenKind::CallC => " \\\n    )(&x, __VA_ARGS__)"@,
        GenKind::ClosureC => " \\\n    )"@,
        _ => ""@,
    }
}

/// The text one signature contributes to the block.
pub open spec fn gen_entry(k: GenKind, f: FunctionSignatureModel) -> Seq<char> {
    match k {
        GenKind::LoanC | GenKind::LoanMutC | GenKind::CheckC | GenKind::CallC => ", \\\n        "@
            + f.args[0].typename + " : "@ + f.func_name,
        GenKind::DropC => ",\\\n        "@ + f.args[0].typename + " * : "@ + f.func_name,
        GenKind::NullC => ", \\\n        "@ + f.args[0].typename + " * : "@ + f.func_name,
        GenKind::ClosureC => ", \\\n        "@ + f.args[0].typename
            + " * : { x->context = (void*)ctx; x->call = callback; x->drop = droper; }"@,
        GenKind::LoanCpp => "\ninline const "@ + f.return_type + "* z_loan("@ + f.args[0].cv + " "@
            + f.args[0].typename + "* "@ + f.args[0].name + ") { return "@ + f.func_name + "("@
            + f.args[0].name + "); };"@,
        GenKind::LoanMutCpp => "\ninline "@ + f.return_type + "* z_loan_mut("@ + f.args[0].cv
            + " "@ + f.args[0].typename + "& "@ + f.args[0].name + ") { return "@ + f.func_name
            + "(&"@ + f.args[0].name + "); };"@,
        GenKind::DropCpp => "\ninline "@ + f.return_type + " z_drop("@ + f.args[0].cv + " "@
            + f.args[0].typename + "* "@ + f.args[0].name + ") { return "@ + f.func_name + "("@
            + f.args[0].name + "); };"@,
        GenKind::NullCpp => "\ninline "@ + f.return_type + " z_null("@ + f.args[0].cv + " "@
            + f.args[0].typename + "* "@ + f.args[0].name + ") { return "@ + f.func_name + "("@
            + f.args[0].name + "); };"@,
        GenKind::CheckCpp => "\ninline "@ + f.return_type + " z_check("@ + f.args[0].cv + " "@
            + f.args[0].typename + "& "@ + f.args[0].name + ") { return "@ + f.func_name + "(&"@
            + f.args[0].name + "); };"@,
        GenKind::CallCpp => "\ninline "@ + f.return_type + " z_call("@ + f.args[0].cv + " "@
            + f.args[0].typename + "& "@ + f.args[0].name + ", "@ + f.args[1].cv + " "@
            + f.args[1].typename + "* "@ + f.args[1].name + ") {\n    return "@ + f.func_name
            + "(&"@ + f.args[0].name + ", "@ + f.args[1].name + "); \n};"@,
        GenKind::ClosureCpp => "\ninline void z_closure(\n    "@ + f.args[0].typename + "* "@
            + f.args[0].name + ",\n    "@ + f.return_type + " (*call)("@ + f.args[1].cv + " "@
            + f.args[1].typename + "*, void*),\n    void (*drop)(void*),\n    void *context) {\n    "@
            + f.args[0].name + "->context = context;\n    "@ + f.args[0].name
            + "->drop = drop;\n    "@ + f.args[0].name + "->call = call;\n};"@,
    }
}

/// The block after the first `i` signatures.
pub open spec fn gen_upto(sigs: Seq<FunctionSignatureModel>, i: int, k: GenKind) -> Seq<char>
    decreases i,
{
    if i <= 0 {
        gen_start(k)
    } else {
        gen_upto(sigs, i - 1, k) + gen_entry(k, sigs[i - 1])
    }
}

/// The whole block for a signature list: its opening text, one entry per
/// signature in order, and its closing text. The selection table and the
/// overload set cover exactly the same signatures; with no signatures a
/// well-formed empty block is still emitted.
pub open spec fn generate_spec(sigs: Seq<FunctionSignatureModel>, k: GenKind) -> Seq<char> {
    gen_upto(sigs, sigs.len() as int, k) + gen_end(k)
}

fn gen_start_exec(k: GenKind) -> (r: Vec<char>)
    ensures
        r@ == gen_start(k),
{
    match k {
        GenKind::LoanC => str_to_chars("#define z_loan(x) \\\n    _Generic((x)"),
        GenKind::LoanMutC => str_to_chars("#define z_loan_mut(x) \\\n    _Generic((x)"),
        GenKind::DropC => str_to_chars("#define z_drop(x) \\\n    _Generic((x)"),
        GenKind::NullC => str_to_chars("#define z_null(x) \\\n    _Generic((x)"),
        GenKind::CheckC => str_to_chars("#define z_check(x) \\\n    _Generic((x)"),
        GenKind::CallC => str_to_chars("#define z_call(x, ...) \\\n     _Generic((x)"),
        GenKind::ClosureC => str_to_chars(
            "#define z_closure(x, callback, dropper, ctx) \\\n     _Generic((x)",
        ),
        _ => str_to_chars(""),
    }
}

fn gen_end_exec(k: GenKind) -> (r: Vec<char>)
    ensures
        r@ == gen_end(k),
{
    match k {
        GenKind::LoanC | GenKind::LoanMutC | GenKind::CheckC => str_to_chars(" \\\n    )(&x)"),
        GenKind::DropC | GenKind::NullC => str_to_chars(" \\\n    )(x)"),
        GenKind::CallC => str_to_chars(" \\\n    )(&x, __VA_ARGS__)"),
        GenKind::ClosureC => str_to_chars(" \\\n    )"),
        _ => str_to_chars(""),
    }
}

#[verifier::rlimit(60)]
fn push_entry(out: &mut Vec<char>, k: GenKind, f: &FunctionSignature)
    requires
        f@.args.len() >= gen_req(k),
    ensures
        final(out)@ == old(out)@ + gen_entry(k, f@),
{
    let a0 = &f.arg_type_and_name[0];
    proof {
        assert(a0@ == f@.args[0]);
    }
    match k {
        GenKind::LoanC | GenKind::LoanMutC | GenKind::CheckC | GenKind::CallC => {
            let l1 = str_to_chars(", \\\n        ");
            let l2 = str_to_chars(" : ");
            push_chars(out, l1.as_slice());
            push_chars(out, a0.typename.as_slice());
            push_chars(out, l2.as_slice());
            push_chars(out, f.func_name.as_slice());
        },
        GenKind::DropC => {
            let l1 = str_to_chars(",\\\n        ");
            let l2 = str_to_chars(" * : ");
            push_chars(out, l1.as_slice());
            push_chars(out, a0.typename.as_slice());
            push_chars(out, l2.as_slice());
            push_chars(out, f.func_name.as_slice());
        },
        GenKind::NullC => {
            let l1 = str_to_chars(", \\\n        ");
            let l2 = str_to_chars(" * : ");
            push_chars(out, l1.as_slice());
            push_chars(out, a0.typename.as_slice());
            push_chars(out, l2.as_slice());
            push_chars(out, f.func_name.as_slice());
        },
        GenKind::ClosureC => {
            let l1 = str_to_chars(", \\\n        ");
            let l2 = str_to_chars(
                " * : { x->context = (void*)ctx; x->call = callback; x->drop = droper; }",
            );
            push_chars(out, l1.as_slice());
            push_chars(out, a0.typename.as_slice());
            push_chars(out, l2.as_slice());
        },
        GenKind::LoanCpp => {
            push_chars(out, str_to_chars("\ninline const ").as_slice());
            push_chars(out, f.return_type.as_slice());
            push_chars(out, str_to_chars("* z_loan(").as_slice());
            push_chars(out, a0.cv.as_slice());
            push_chars(out, str_to_chars(" ").as_slice());
            push_chars(out, a0.typename.as_slice());
            push_chars(out, str_to_chars("* ").as_slice());
            push_chars(out, a0.name.as_slice());
            push_chars(out, str_to_chars(") { return ").as_slice());
            push_chars(out, f.func_name.as_slice());
            push_chars(out, str_to_chars("(").as_slice());
            push_chars(out, a0.name.as_slice());
            push_chars(out, str_to_chars("); };").as_slice());
        },
        GenKind::LoanMutCpp => {
            push_chars(out, str_to_chars("\ninline ").as_slice());
            push_chars(out, f.return_type.as_slice());
            push_chars(out, str_to_chars("* z_loan_mut(").as_slice());
            push_chars(out, a0.cv.as_slice());
            push_chars(out, str_to_chars(" ").as_slice());
            push_chars(out, a0.typename.as_slice());
            push_chars(out, str_to_chars("& ").as_slice());
            push_chars(out, a0.name.as_slice());
            push_chars(out, str_to_chars(") { return ").as_slice());
            push_chars(out, f.func_name.as_slice());
            push_chars(out, str_to_chars("(&").as_slice());
            push_chars(out, a0.name.as_slice());
            push_chars(out, str_to_chars("); };").as_slice());
        },
        GenKind::DropCpp => {
            push_chars(out, str_to_chars("\ninline ").as_slice());
            push_chars(out, f.return_type.as_slice());
            push_chars(out, str_to_chars(" z_drop(").as_slice());
            push_chars(out, a0.cv.as_slice());
            push_chars(out, str_to_chars(" ").as_slice());
            push_chars(out, a0.typename.as_slice());
            push_chars(out, str_to_chars("* ").as_slice());
            push_chars(out, a0.name.as_slice());
            push_chars(out, str_to_chars(") { return ").as_slice());
            push_chars(out, f.func_name.as_slice());
            push_chars(out, str_to_chars("(").as_slice());
            push_chars(out, a0.name.as_slice());
            push_chars(out, str_to_chars("); };").as_slice());
        },
        GenKind::NullCpp => {
            push_chars(out, str_to_chars("\ninline ").as_slice());
            push_chars(out, f.return_type.as_slice());
            push_chars(out, str_to_chars(" z_null(").as_slice());
            push_chars(out, a0.cv.as_slice());
            push_chars(out, str_to_chars(" ").as_slice());
            push_chars(out, a0.typename.as_slice());
            push_chars(out, str_to_chars("* ").as_slice());
            push_chars(out, a0.name.as_slice());
            push_chars(out, str_to_chars(") { return ").as_slice());
            push_chars(out, f.func_name.as_slice());
            push_chars(out, str_to_chars("(").as_slice());
            push_chars(out, a0.name.as_slice());
            push_chars(out, str_to_chars("); };").as_slice());
        },
        GenKind::CheckCpp => {
            push_chars(out, str_to_chars("\ninline ").as_slice());
            push_chars(out, f.return_type.as_slice());
            push_chars(out, str_to_chars(" z_check(").as_slice());
            push_chars(out, a0.cv.as_slice());
            push_chars(out, str_to_chars(" ").as_slice());
            push_chars(out, a0.typename.as_slice());
            push_chars(out, str_to_chars("& ").as_slice());
            push_chars(out, a0.name.as_slice());
            push_chars(out, str_to_chars(") { return ").as_slice());
            push_chars(out, f.func_name.as_slice());
            push_chars(out, str_to_chars("(&").as_slice());
            push_chars(out, a0.name.as_slice());
            push_chars(out, str_to_chars("); };").as_slice());
        },
        GenKind::CallCpp => {
            let a1 = &f.arg_type_and_name[1];
            proof {
                assert(a1@ == f@.args[1]);
            }
            push_chars(out, str_to_chars("\ninline ").as_slice());
            push_chars(out, f.return_type.as_slice());
            push_chars(out, str_to_chars(" z_call(").as_slice());
            push_chars(out, a0.cv.as_slice());
            push_chars(out, str_to_chars(" ").as_slice());
            push_chars(out, a0.typename.as_slice());
            push_chars(out, str_to_chars("& ").as_slice());
            push_chars(out, a0.name.as_slice());
            push_chars(out, str_to_chars(", ").as_slice());
            push_chars(out, a1.cv.as_slice());
            push_chars(out, str_to_chars(" ").as_slice());
            push_chars(out, a1.typename.as_slice());
            push_chars(out, str_to_chars("* ").as_slice());
            push_chars(out, a1.name.as_slice());
            push_chars(out, str_to_chars(") {\n    return ").as_slice());
            push_chars(out, f.func_name.as_slice());
            push_chars(out, str_to_chars("(&").as_slice());
            push_chars(out, a0.name.as_slice());
            push_chars(out, str_to_chars(", ").as_slice());
            push_chars(out, a1.name.as_slice());
            push_chars(out, str_to_chars("); \n};").as_slice());
        },
        GenKind::ClosureCpp => {
            let a1 = &f.arg_type_and_name[1];
            proof {
                assert(a1@ == f@.args[1]);
            }
            push_chars(out, str_to_chars("\ninline void z_closure(\n    ").as_slice());
            push_chars(out, a0.typename.as_slice());
            push_chars(out, str_to_chars("* ").as_slice());
            push_chars(out, a0.name.as_slice());
            push_chars(out, str_to_chars(",\n    ").as_slice());
            push_chars(out, f.return_type.as_slice());
            push_chars(out, str_to_chars(" (*call)(").as_slice());
            push_chars(out, a1.cv.as_slice());
            push_chars(out, str_to_chars(" ").as_slice());
            push_chars(out, a1.typename.as_slice());
            push_chars(out, str_to_chars("*, void*),\n    void (*drop)(void*),\n    void *context) {\n    ").as_slice());
            push_chars(out, a0.name.as_slice());
            push_chars(out, str_to_chars("->context = context;\n    ").as_slice());
            push_chars(out, a0.name.as_slice());
            push_chars(out, str_to_chars("->drop = drop;\n    ").as_slice());
            push_chars(out, a0.name.as_slice());
            push_chars(out, str_to_chars("->call = call;\n};").as_slice());
        },
    }
    proof {
        assert(out@ =~= old(out)@ + gen_entry(k, f@));
    }
}

/// Emits the block of kind `k` for the given signatures.
fn generate(sigs: &Vec<FunctionSignature>, k: GenKind) -> (out: Vec<char>)
    requires
        forall|j: int| 0 <= j < sigs@.len() ==> (#[trigger] sigs@[j]@).args.len() >= gen_req(k),
    ensures
        out@ == generate_spec(sigs_view(sigs@), k),
{
    let ghost sv = sigs_view(sigs@);
    let mut out = gen_start_exec(k);
    let mut i: usize = 0;
    while i < sigs.len()
        invariant
            i <= sigs@.len(),
            sv == sigs_view(sigs@),
            forall|j: int| 0 <= j < sigs@.len() ==> (#[trigger] sigs@[j]@).args.len() >= gen_req(k),
            out@ == gen_upto(sv, i as int, k),
        decreases sigs@.len() - i,
    {
        proof {
            assert(sv[i as int] == sigs@[i as int]@);
        }
        push_entry(&mut out, k, &sigs[i]);
        i += 1;
    }
    let endp = gen_end_exec(k);
    push_chars(&mut out, endp.as_slice());
    out
}


/// Emits the `z_loan` selection table for the mined signatures.
pub fn generate_generic_loan_c(macro_func: &Vec<FunctionSignature>) -> (out: Vec<char>)
    requires
        forall|j: int| 0 <= j < macro_func@.len() ==> (#[trigger] macro_func@[j]@).args.len()
            >= gen_req(GenKind::LoanC),
    ensures
        out@ == generate_spec(sigs_view(macro_func@), GenKind::LoanC),
{
    generate(macro_func, GenKind::LoanC)
}

/// Emits the `z_loan_mut` selection table for the mined signatures.
pub fn generate_generic_loan_mut_c(macro_func: &Vec<FunctionSignature>) -> (out: Vec<char>)
    requires
        forall|j: int| 0 <= j < macro_func@.len() ==> (#[trigger] macro_func@[j]@).args.len()
            >= gen_req(GenKind::LoanMutC),
    ensures
        out@ == generate_spec(sigs_view(macro_func@), GenKind::LoanMutC),
{
    generate(macro_func, GenKind::LoanMutC)
}

/// Emits the `z_drop` selection table for the mined signatures.
pub fn generate_generic_drop_c(macro_func: &Vec<FunctionSignature>) -> (out: Vec<char>)
    requires
        forall|j: int| 0 <= j < macro_func@.len() ==> (#[trigger] macro_func@[j]@).args.len()
            >= gen_req(GenKind::DropC),
    ensures
        out@ == generate_spec(sigs_view(macro_func@), GenKind::DropC),
{
    generate(macro_func, GenKind::DropC)
}

/// Emits the `z_null` selection table for the mined signatures.
pub fn generate_generic_null_c(macro_func: &Vec<FunctionSignature>) -> (out: Vec<char>)
    requires
        forall|j: int| 0 <= j < macro_func@.len() ==> (#[trigger] macro_func@[j]@).args.len()
            >= gen_req(GenKind::NullC),
    ensures
        out@ == generate_spec(sigs_view(macro_func@), GenKind::NullC),
{
    generate(macro_func, GenKind::NullC)
}

/// Emits the `z_check` selection table for the mined signatures.
pub fn generate_generic_check_c(macro_func: &Vec<FunctionSignature>) -> (out: Vec<char>)
    requires
        forall|j: int| 0 <= j < macro_func@.len() ==> (#[trigger] macro_func@[j]@).args.len()
            >= gen_req(GenKind::CheckC),
    ensures
        out@ == generate_spec(sigs_view(macro_func@), GenKind::CheckC),
{
    generate(macro_func, GenKind::CheckC)
}

/// Emits the `z_call` selection table for the mined signatures.
pub fn generate_generic_call_c(macro_func: &Vec<FunctionSignature>) -> (out: Vec<char>)
    requires
        forall|j: int| 0 <= j < macro_func@.len() ==> (#[trigger] macro_func@[j]@).args.len()
            >= gen_req(GenKind::CallC),
    ensures
        out@ == generate_spec(sigs_view(macro_func@), GenKind::CallC),
{
    generate(macro_func, GenKind::CallC)
}

/// Emits the `z_closure` construction table for the mined signatures.
pub fn generate_generic_closure_c(macro_func: &Vec<FunctionSignature>) -> (out: Vec<char>)
    requires
        forall|j: int| 0 <= j < macro_func@.len() ==> (#[trigger] macro_func@[j]@).args.len()
            >= gen_req(GenKind::ClosureC),
    ensures
        out@ == generate_spec(sigs_view(macro_func@), GenKind::ClosureC),
{
    generate(macro_func, GenKind::ClosureC)
}

/// Emits the `z_loan` overload set for the mined signatures.
pub fn generate_generic_loan_cpp(macro_func: &Vec<FunctionSignature>) -> (out: Vec<char>)
    requires
        forall|j: int| 0 <= j < macro_func@.len() ==> (#[trigger] macro_func@[j]@).args.len()
            >= gen_req(GenKind::LoanCpp),
    ensures
        out@ == generate_spec(sigs_view(macro_func@), GenKind::LoanCpp),
{
    generate(macro_func, GenKind::LoanCpp)
}

/// Emits the `z_loan_mut` overload set for the mined signatures.
pub fn generate_generic_loan_mut_cpp(macro_func: &Vec<FunctionSignature>) -> (out: Vec<char>)
    requires
        forall|j: int| 0 <= j < macro_func@.len() ==> (#[trigger] macro_func@[j]@).args.len()
            >= gen_req(GenKind::LoanMutCpp),
    ensures
        out@ == generate_spec(sigs_view(macro_func@), GenKind::LoanMutCpp),
{
    generate(macro_func, GenKind::LoanMutCpp)
}

/// Emits the `z_drop` overload set for the mined signatures.
pub fn generate_generic_drop_cpp(macro_func: &Vec<FunctionSignature>) -> (out: Vec<char>)
    requires
        forall|j: int| 0 <= j < macro_func@.len() ==> (#[trigger] macro_func@[j]@).args.len()
            >= gen_req(GenKind::DropCpp),
    ensures
        out@ == generate_spec(sigs_view(macro_func@), GenKind::DropCpp),
{
    generate(macro_func, GenKind::DropCpp)
}

/// Emits the `z_null` overload set for the mined signatures.
pub fn generate_generic_null_cpp(macro_func: &Vec<FunctionSignature>) -> (out: Vec<char>)
    requires
        forall|j: int| 0 <= j < macro_func@.len() ==> (#[trigger] macro_func@[j]@).args.len()
            >= gen_req(GenKind::NullCpp),
    ensures
        out@ == generate_spec(sigs_view(macro_func@), GenKind::NullCpp),
{
    generate(macro_func, GenKind::NullCpp)
}

/// Emits the `z_check` overload set for the mined signatures.
pub fn generate_generic_check_cpp(macro_func: &Vec<FunctionSignature>) -> (out: Vec<char>)
    requires
        forall|j: int| 0 <= j < macro_func@.len() ==> (#[trigger] macro_func@[j]@).args.len()
            >= gen_req(GenKind::CheckCpp),
    ensures
        out@ == generate_spec(sigs_view(macro_func@), GenKind::CheckCpp),
{
    generate(macro_func, GenKind::CheckCpp)
}

/// Emits the `z_call` overload set for the mined signatures.
pub fn generate_generic_call_cpp(macro_func: &Vec<FunctionSignature>) -> (out: Vec<char>)
    requires
        forall|j: int| 0 <= j < macro_func@.len() ==> (#[trigger] macro_func@[j]@).args.len()
            >= gen_req(GenKind::CallCpp),
    ensures
        out@ == generate_spec(sigs_view(macro_func@), GenKind::CallCpp),
{
    generate(macro_func, GenKind::CallCpp)
}

/// Emits the `z_closure` construction helpers for the mined signatures.
pub fn generate_generic_closure_cpp(macro_func: &Vec<FunctionSignature>) -> (out: Vec<char>)
    requires
        forall|j: int| 0 <= j < macro_func@.len() ==> (#[trigger] macro_func@[j]@).args.len()
            >= gen_req(GenKind::ClosureCpp),
    ensures
        out@ == generate_spec(sigs_view(macro_func@), GenKind::ClosureCpp),
{
    generate(macro_func, GenKind::ClosureCpp)
}

/// The whole generics header for the declaration text: for each convention
/// its selection table under the plain-C branch, then the equivalent
/// overload set under the alternate branch, so exactly one variant is
/// visible to the consuming compiler.
pub open spec fn create_generics_spec(s: Seq<char>) -> Seq<char> {
    let loan = mine_conv_from(s, 0, Convention::Loan);
    let loan_mut = mine_conv_from(s, 0, Convention::LoanMut);
    let dropf = mine_conv_from(s, 0, Convention::Drop);
    let nullf = mine_conv_from(s, 0, Convention::Null);
    let checkf = mine_conv_from(s, 0, Convention::Check);
    let callf = mine_call_from(s, 0);
    "#pragma once\n// clang-format off\n#ifndef __cplusplus\n\n"@ + generate_spec(
        loan,
        GenKind::LoanC,
    ) + "\n\n"@ + generate_spec(loan_mut, GenKind::LoanMutC) + "\n\n"@ + generate_spec(
        dropf,
        GenKind::DropC,
    ) + "\n\n"@ + generate_spec(nullf, GenKind::NullC) + "\n\n"@ + generate_spec(
        checkf,
        GenKind::CheckC,
    ) + "\n\n"@ + generate_spec(callf, GenKind::CallC) + "\n\n"@ + generate_spec(
        callf,
        GenKind::ClosureC,
    ) + "\n#else  // #ifndef __cplusplus\n"@ + "\n\n"@ + generate_spec(loan, GenKind::LoanCpp)
        + "\n\n"@ + generate_spec(loan_mut, GenKind::LoanMutCpp) + "\n\n"@ + generate_spec(
        dropf,
        GenKind::DropCpp,
    ) + "\n\n"@ + generate_spec(nullf, GenKind::NullCpp) + "\n\n"@ + generate_spec(
        checkf,
        GenKind::CheckCpp,
    ) + "\n\n"@ + generate_spec(callf, GenKind::CallCpp) + "\n\n"@ + generate_spec(
        callf,
        GenKind::ClosureCpp,
    ) + "\n#endif  // #ifndef __cplusplus"@
}

/// Mines every convention family from the declaration text and assembles
/// the generics header.
#[verifier::loop_isolation(false)]
pub fn create_generics_header(bindings: &[char]) -> (out: Vec<char>)
    ensures
        out@ == create_generics_spec(bindings@),
{
    let loan = find_convention_functions(bindings, Convention::Loan);
    let loan_mut = find_convention_functions(bindings, Convention::LoanMut);
    let dropf = find_convention_functions(bindings, Convention::Drop);
    let nullf = find_convention_functions(bindings, Convention::Null);
    let checkf = find_convention_functions(bindings, Convention::Check);
    let callf = find_call_functions(bindings);
    let sep = str_to_chars("\n\n");
    let mut out = str_to_chars("#pragma once\n// clang-format off\n#ifndef __cplusplus\n\n");
    let mut part = generate(&loan, GenKind::LoanC);
    push_chars(&mut out, part.as_slice());
    push_chars(&mut out, sep.as_slice());
    part = generate(&loan_mut, GenKind::LoanMutC);
    push_chars(&mut out, part.as_slice());
    push_chars(&mut out, sep.as_slice());
    part = generate(&dropf, GenKind::DropC);
    push_chars(&mut out, part.as_slice());
    push_chars(&mut out, sep.as_slice());
    part = generate(&nullf, GenKind::NullC);
    push_chars(&mut out, part.as_slice());
    push_chars(&mut out, sep.as_slice());
    part = generate(&checkf, GenKind::CheckC);
    push_chars(&mut out, part.as_slice());
    push_chars(&mut out, sep.as_slice());
    part = generate(&callf, GenKind::CallC);
    push_chars(&mut out, part.as_slice());
    push_chars(&mut out, sep.as_slice());
    part = generate(&callf, GenKind::ClosureC);
    push_chars(&mut out, part.as_slice());
    let elseb = str_to_chars("\n#else  // #ifndef __cplusplus\n");
    push_chars(&mut out, elseb.as_slice());
    push_chars(&mut out, sep.as_slice());
    part = generate(&loan, GenKind::LoanCpp);
    push_chars(&mut out, part.as_slice());
    push_chars(&mut out, sep.as_slice());
    part = generate(&loan_mut, GenKind::LoanMutCpp);
    push_chars(&mut out, part.as_slice());
    push_chars(&mut out, sep.as_slice());
    part = generate(&dropf, GenKind::DropCpp);
    push_chars(&mut out, part.as_slice());
    push_chars(&mut out, sep.as_slice());
    part = generate(&nullf, GenKind::NullCpp);
    push_chars(&mut out, part.as_slice());
    push_chars(&mut out, sep.as_slice());
    part = generate(&checkf, GenKind::CheckCpp);
    push_chars(&mut out, part.as_slice());
    push_chars(&mut out, sep.as_slice());
    part = generate(&callf, GenKind::CallCpp);
    push_chars(&mut out, part.as_slice());
    push_chars(&mut out, sep.as_slice());
    part = generate(&callf, GenKind::ClosureCpp);
    push_chars(&mut out, part.as_slice());
    let endb = str_to_chars("\n#endif  // #ifndef __cplusplus");
    push_chars(&mut out, endb.as_slice());
    proof {
        assert(out@ =~= create_generics_spec(bindings@));
    }
    out
}

} // verus!
