//! The signature miner: structural matchers, one per naming convention
//! (`loan`, `loan_mut`, `drop`, `null`, `check`, `call`), that scan the
//! generated declaration text and recover typed function families.
use vstd::prelude::*;
use crate::text::{
    word_run_from, ws_run_from, starts_with_at, exec_word_run_from, exec_ws_run_from,
    exec_starts_with_at, clone_chars, str_to_chars,
};

verus! {

/// One argument of a mined signature: its type name, its const qualifier
/// (empty when absent) and its parameter name.
#[verifier::ext_equal]
pub struct FuncArgModel {
    pub typename: Seq<char>,
    pub cv: Seq<char>,
    pub name: Seq<char>,
}

pub struct FuncArg {
    pub typename: Vec<char>,
    pub cv: Vec<char>,
    pub name: Vec<char>,
}

impl View for FuncArg {
    type V = FuncArgModel;

    open spec fn view(&self) -> FuncArgModel {
        FuncArgModel { typename: self.typename@, cv: self.cv@, name: self.name@ }
    }
}

impl FuncArg {
    pub fn new(typename: &[char], cv: &[char], name: &[char]) -> (r: FuncArg)
        ensures
            r@.typename == typename@,
            r@.cv == cv@,
            r@.name == name@,
    {
        FuncArg { typename: clone_chars(typename), cv: clone_chars(cv), name: clone_chars(name) }
    }
}

/// A mined, semantic description of one function of a convention family.
#[verifier::ext_equal]
pub struct FunctionSignatureModel {
    pub return_type: Seq<char>,
    pub func_name: Seq<char>,
    pub args: Seq<FuncArgModel>,
}

pub struct FunctionSignature {
    pub return_type: Vec<char>,
    pub func_name: Vec<char>,
    pub arg_type_and_name: Vec<FuncArg>,
}

pub open spec fn args_view(v: Seq<FuncArg>) -> Seq<FuncArgModel> {
    v.map_values(|a: FuncArg| a@)
}

impl View for FunctionSignature {
    type V = FunctionSignatureModel;

    open spec fn view(&self) -> FunctionSignatureModel {
        FunctionSignatureModel {
            return_type: self.return_type@,
            func_name: self.func_name@,
            args: args_view(self.arg_type_and_name@),
        }
    }
}

pub open spec fn sigs_view(v: Seq<FunctionSignature>) -> Seq<FunctionSignatureModel> {
    v.map_values(|s: FunctionSignature| s@)
}

/// The five single-argument conventions. (`call` has its own shape.)
#[derive(Debug, Clone, Copy, PartialEq, Eq, Structural)]
pub enum Convention {
    Loan,
    LoanMut,
    Drop,
    Null,
    Check,
}

/// The literal text before the captured return type (or, for conventions
/// with a fixed return type, before the function name).
pub open spec fn conv_prefix(c: Convention) -> Seq<char> {
    match c {
        Convention::Loan => "const struct "@,
        Convention::LoanMut => "struct "@,
        Convention::Drop => ""@,
        Convention::Null => ""@,
        Convention::Check => "bool "@,
    }
}

/// The name suffix the convention demands of the matched function.
pub open spec fn conv_suffix(c: Convention) -> Seq<char> {
    match c {
        Convention::Loan => "_loan"@,
        Convention::LoanMut => "_loan_mut"@,
        Convention::Drop => "_drop"@,
        Convention::Null => "_null"@,
        Convention::Check => "_check"@,
    }
}

/// The literal opening the argument list.
pub open spec fn conv_inner(c: Convention) -> Seq<char> {
    match c {
        Convention::Loan => "(const struct "@,
        Convention::LoanMut => "(struct "@,
        Convention::Drop => "(struct "@,
        Convention::Null => "(struct "@,
        Convention::Check => "(const struct "@,
    }
}

/// The const qualifier recorded for the argument.
pub open spec fn conv_cv(c: Convention) -> Seq<char> {
    match c {
        Convention::Loan => "const"@,
        Convention::LoanMut => ""@,
        Convention::Drop => "const"@,
        Convention::Null => ""@,
        Convention::Check => "const"@,
    }
}

/// Whether the convention captures its return type from the text (the loan
/// conventions return a pointer to the captured type).
pub open spec fn conv_has_ret(c: Convention) -> bool {
    c == Convention::Loan || c == Convention::LoanMut
}

/// The fixed return type of the conventions that do not capture one.
pub open spec fn conv_fixed_ret(c: Convention) -> Seq<char> {
    match c {
        Convention::Check => "bool"@,
        _ => "void"@,
    }
}

/// The matched function name: a non-empty word run that ends in the
/// convention's suffix, with a non-empty part before the suffix.
pub open spec fn name_fits(name: Seq<char>, suffix: Seq<char>) -> bool {
    name.len() > suffix.len() && name.subrange(
        name.len() - suffix.len(),
        name.len() as int,
    ) == suffix
}

/// Matches one prototype of convention `c` starting exactly at `i`:
/// the prefix, the captured return type (for the loan conventions), the
/// suffixed function name, the argument-list opener, the argument type,
/// ` *`, the argument name, and `);`. Yields the signature and the position
/// just past the match.
pub open spec fn match_conv_at(s: Seq<char>, i: int, c: Convention) -> Option<
    (FunctionSignatureModel, int),
> {
    if !starts_with_at(s, i, conv_prefix(c)) {
        None
    } else {
        let p0 = i + conv_prefix(c).len();
        let a = word_run_from(s, p0);
        let ret_ok = if conv_has_ret(c) {
            a > 0 && starts_with_at(s, p0 + a, " *"@)
        } else {
            true
        };
        let ret = if conv_has_ret(c) {
            s.subrange(p0, p0 + a)
        } else {
            conv_fixed_ret(c)
        };
        let p1 = if conv_has_ret(c) {
            p0 + a + 2
        } else {
            p0
        };
        if !ret_ok {
            None
        } else {
            let b = word_run_from(s, p1);
            let name = s.subrange(p1, p1 + b);
            if !name_fits(name, conv_suffix(c)) {
                None
            } else {
                let p2 = p1 + b;
                if !starts_with_at(s, p2, conv_inner(c)) {
                    None
                } else {
                    let p3 = p2 + conv_inner(c).len();
                    let t = word_run_from(s, p3);
                    let p4 = p3 + t;
                    if t == 0 || !starts_with_at(s, p4, " *"@) {
                        None
                    } else {
                        let p5 = p4 + 2;
                        let d = word_run_from(s, p5);
                        let p6 = p5 + d;
                        if d == 0 || !starts_with_at(s, p6, ");"@) {
                            None
                        } else {
                            Some(
                                (
                                    FunctionSignatureModel {
                                        return_type: ret,
                                        func_name: name,
                                        args: seq![
                                            FuncArgModel {
                                                typename: s.subrange(p3, p4),
                                                cv: conv_cv(c),
                                                name: s.subrange(p5, p6),
                                            },
                                        ],
                                    },
                                    p6 + 2,
                                ),
                            )
                        }
                    }
                }
            }
        }
    }
}

/// The signatures mined from `s` at or after `i`: a left-to-right scan that
/// takes the leftmost match, then continues just past it.
pub open spec fn mine_conv_from(s: Seq<char>, i: int, c: Convention) -> Seq<
    FunctionSignatureModel,
>
    decreases s.len() - i,
{
    if !(0 <= i < s.len()) {
        Seq::empty()
    } else {
        match match_conv_at(s, i, c) {
            Some((sig, end)) => {
                if i < end <= s.len() {
                    seq![sig] + mine_conv_from(s, end, c)
                } else {
                    seq![sig]
                }
            },
            None => mine_conv_from(s, i + 1, c),
        }
    }
}

fn conv_prefix_exec(c: Convention) -> (r: Vec<char>)
    ensures
        r@ == conv_prefix(c),
{
    match c {
        Convention::Loan => str_to_chars("const struct "),
        Convention::LoanMut => str_to_chars("struct "),
        Convention::Drop => str_to_chars(""),
        Convention::Null => str_to_chars(""),
        Convention::Check => str_to_chars("bool "),
    }
}

fn conv_suffix_exec(c: Convention) -> (r: Vec<char>)
    ensures
        r@ == conv_suffix(c),
{
    match c {
        Convention::Loan => str_to_chars("_loan"),
        Convention::LoanMut => str_to_chars("_loan_mut"),
        Convention::Drop => str_to_chars("_drop"),
        Convention::Null => str_to_chars("_null"),
        Convention::Check => str_to_chars("_check"),
    }
}

fn conv_inner_exec(c: Convention) -> (r: Vec<char>)
    ensures
        r@ == conv_inner(c),
{
    match c {
        Convention::Loan => str_to_chars("(const struct "),
        Convention::LoanMut => str_to_chars("(struct "),
        Convention::Drop => str_to_chars("(struct "),
        Convention::Null => str_to_chars("(struct "),
        Convention::Check => str_to_chars("(const struct "),
    }
}

fn conv_cv_exec(c: Convention) -> (r: Vec<char>)
    ensures
        r@ == conv_cv(c),
{
    match c {
        Convention::Loan => str_to_chars("const"),
        Convention::LoanMut => str_to_chars(""),
        Convention::Drop => str_to_chars("const"),
        Convention::Null => str_to_chars(""),
        Convention::Check => str_to_chars("const"),
    }
}

fn conv_fixed_ret_exec(c: Convention) -> (r: Vec<char>)
    ensures
        r@ == conv_fixed_ret(c),
{
    match c {
        Convention::Check => str_to_chars("bool"),
        _ => str_to_chars("void"),
    }
}

fn exec_match_conv_at(s: &[char], i: usize, c: Convention) -> (r: Option<
    (FunctionSignature, usize),
>)
    requires
        i <= s@.len(),
    ensures
        match r {
            Some((sig, end)) => match_conv_at(s@, i as int, c) matches Some(m) && m.0 == sig@
                && m.1 == end as int && i < end <= s@.len(),
            None => match_conv_at(s@, i as int, c) is None,
        },
{
    let n = s.len();
    let prefix = conv_prefix_exec(c);
    if !exec_starts_with_at(s, i, prefix.as_slice()) {
        return None;
    }
    let p0 = i + prefix.len();
    let has_ret = matches!(c, Convention::Loan) || matches!(c, Convention::LoanMut);
    let a = exec_word_run_from(s, p0);
    let star = str_to_chars(" *");
    let ret: Vec<char>;
    let p1: usize;
    if has_ret {
        if !(a > 0 && exec_starts_with_at(s, p0 + a, star.as_slice())) {
            return None;
        }
        ret = clone_chars(&s[p0..p0 + a]);
        proof {
            reveal_strlit(" *");
            assert(p0 + a + 2 <= s@.len());
            assert(s@.len() == n as int);
        }
        p1 = p0 + a + 2;
    } else {
        ret = conv_fixed_ret_exec(c);
        p1 = p0;
    }
    let b = exec_word_run_from(s, p1);
    let name = clone_chars(&s[p1..p1 + b]);
    let suffix = conv_suffix_exec(c);
    let fits = b > suffix.len() && exec_starts_with_at(
        name.as_slice(),
        b - suffix.len(),
        suffix.as_slice(),
    );
    proof {
        assert(name@ == s@.subrange(p1 as int, p1 + b));
        if b > suffix@.len() {
            assert(name_fits(name@, conv_suffix(c)) == starts_with_at(
                name@,
                b - suffix@.len(),
                suffix@,
            )) by {
                if starts_with_at(name@, b - suffix@.len(), suffix@) {
                    assert(name@.subrange(b - suffix@.len(), b as int) =~= suffix@);
                }
            }
        }
    }
    if !fits {
        return None;
    }
    let p2 = p1 + b;
    let inner = conv_inner_exec(c);
    if !exec_starts_with_at(s, p2, inner.as_slice()) {
        return None;
    }
    let p3 = p2 + inner.len();
    let t = exec_word_run_from(s, p3);
    let p4 = p3 + t;
    if t == 0 || !exec_starts_with_at(s, p4, star.as_slice()) {
        return None;
    }
    proof {
        reveal_strlit(" *");
    }
    let p5 = p4 + 2;
    let d = exec_word_run_from(s, p5);
    let p6 = p5 + d;
    let paren = str_to_chars(");");
    if d == 0 || !exec_starts_with_at(s, p6, paren.as_slice()) {
        return None;
    }
    proof {
        reveal_strlit(");");
    }
    let typename = clone_chars(&s[p3..p4]);
    let cv = conv_cv_exec(c);
    let argname = clone_chars(&s[p5..p6]);
    let arg = FuncArg { typename, cv, name: argname };
    let ghost am = arg@;
    let mut args: Vec<FuncArg> = Vec::new();
    args.push(arg);
    let sig = FunctionSignature { return_type: ret, func_name: name, arg_type_and_name: args };
    let end = p6 + 2;
    proof {
        assert(args_view(sig.arg_type_and_name@) =~= seq![am]);
        assert(sig@ =~= match_conv_at(s@, i as int, c)->Some_0.0);
    }
    Some((sig, end))
}

/// Mines every prototype of convention `c` in the declaration text, in
/// textual order. Every mined signature carries exactly one argument.
pub fn find_convention_functions(bindings: &[char], c: Convention) -> (r: Vec<FunctionSignature>)
    ensures
        sigs_view(r@) == mine_conv_from(bindings@, 0, c),
        forall|k: int| 0 <= k < r@.len() ==> (#[trigger] r@[k]@).args.len() == 1,
{
    let mut out: Vec<FunctionSignature> = Vec::new();
    let mut i: usize = 0;
    proof {
        assert(sigs_view(out@) =~= Seq::<FunctionSignatureModel>::empty());
    }
    while i < bindings.len()
        invariant
            i <= bindings@.len(),
            mine_conv_from(bindings@, 0, c) == sigs_view(out@) + mine_conv_from(
                bindings@,
                i as int,
                c,
            ),
            forall|k: int| 0 <= k < out@.len() ==> (#[trigger] out@[k]@).args.len() == 1,
        decreases bindings@.len() - i,
    {
        match exec_match_conv_at(bindings, i, c) {
            Some((sig, end)) => {
                let ghost pre = out@;
                let ghost sm = sig@;
                out.push(sig);
                proof {
                    assert(sigs_view(out@) =~= sigs_view(pre).push(sm));
                    assert(sigs_view(pre).push(sm) + mine_conv_from(bindings@, end as int, c)
                        =~= sigs_view(pre) + (seq![sm] + mine_conv_from(bindings@, end as int, c)));
                }
                i = end;
            },
            None => {
                i += 1;
            },
        }
    }
    proof {
        assert(mine_conv_from(bindings@, i as int, c) =~= Seq::<FunctionSignatureModel>::empty());
        assert(sigs_view(out@) + Seq::<FunctionSignatureModel>::empty() =~= sigs_view(out@));
    }
    out
}

/// Functions of the `<type>_loan` convention.
pub fn find_loan_functions(bindings: &[char]) -> (r: Vec<FunctionSignature>)
    ensures
        sigs_view(r@) == mine_conv_from(bindings@, 0, Convention::Loan),
        forall|k: int| 0 <= k < r@.len() ==> (#[trigger] r@[k]@).args.len() == 1,
{
    find_convention_functions(bindings, Convention::Loan)
}

/// Functions of the `<type>_loan_mut` convention.
pub fn find_loan_mut_functions(bindings: &[char]) -> (r: Vec<FunctionSignature>)
    ensures
        sigs_view(r@) == mine_conv_from(bindings@, 0, Convention::LoanMut),
        forall|k: int| 0 <= k < r@.len() ==> (#[trigger] r@[k]@).args.len() == 1,
{
    find_convention_functions(bindings, Convention::LoanMut)
}

/// Functions of the `<type>_drop` convention.
pub fn find_drop_functions(bindings: &[char]) -> (r: Vec<FunctionSignature>)
    ensures
        sigs_view(r@) == mine_conv_from(bindings@, 0, Convention::Drop),
        forall|k: int| 0 <= k < r@.len() ==> (#[trigger] r@[k]@).args.len() == 1,
{
    find_convention_functions(bindings, Convention::Drop)
}

/// Functions of the `<type>_null` convention.
pub fn find_null_functions(bindings: &[char]) -> (r: Vec<FunctionSignature>)
    ensures
        sigs_view(r@) == mine_conv_from(bindings@, 0, Convention::Null),
        forall|k: int| 0 <= k < r@.len() ==> (#[trigger] r@[k]@).args.len() == 1,
{
    find_convention_functions(bindings, Convention::Null)
}

/// Functions of the `<type>_check` convention.
pub fn find_check_functions(bindings: &[char]) -> (r: Vec<FunctionSignature>)
    ensures
        sigs_view(r@) == mine_conv_from(bindings@, 0, Convention::Check),
        forall|k: int| 0 <= k < r@.len() ==> (#[trigger] r@[k]@).args.len() == 1,
{
    find_convention_functions(bindings, Convention::Check)
}


/// Matches one prototype of the `call` convention starting exactly at `i`:
/// the captured return type, a space, the `_call`-suffixed function name,
/// `(const struct `, the closure type, ` *`, the closure name, a comma,
/// whitespace, an optional const qualifier, `struct `, the payload type,
/// ` *`, the payload name, and `);`.
pub open spec fn match_call_at(s: Seq<char>, i: int) -> Option<(FunctionSignatureModel, int)> {
    let r = word_run_from(s, i);
    if r == 0 || !starts_with_at(s, i + r, " "@) {
        None
    } else {
        let ret = s.subrange(i, i + r);
        let p1 = i + r + 1;
        let b = word_run_from(s, p1);
        let name = s.subrange(p1, p1 + b);
        if !name_fits(name, "_call"@) {
            None
        } else {
            let p2 = p1 + b;
            if !starts_with_at(s, p2, "(const struct "@) {
                None
            } else {
                let p3 = p2 + 14;
                let t1 = word_run_from(s, p3);
                let p4 = p3 + t1;
                if t1 == 0 || !starts_with_at(s, p4, " *"@) {
                    None
                } else {
                    let p5 = p4 + 2;
                    let d1 = word_run_from(s, p5);
                    let p6 = p5 + d1;
                    if d1 == 0 || !starts_with_at(s, p6, ","@) {
                        None
                    } else {
                        let w = ws_run_from(s, p6 + 1);
                        if w == 0 {
                            None
                        } else {
                            let p7 = p6 + 1 + w;
                            match match_call_tail(s, p7) {
                                None => None,
                                Some((cv, p8)) => {
                                    let t2 = word_run_from(s, p8);
                                    let p9 = p8 + t2;
                                    if t2 == 0 || !starts_with_at(s, p9, " *"@) {
                                        None
                                    } else {
                                        let p10 = p9 + 2;
                                        let d2 = word_run_from(s, p10);
                                        let p11 = p10 + d2;
                                        if d2 == 0 || !starts_with_at(s, p11, ");"@) {
                                            None
                                        } else {
                                            Some(
                                                (
                                                    FunctionSignatureModel {
                                                        return_type: ret,
                                                        func_name: name,
                                                        args: seq![
                                                            FuncArgModel {
                                                                typename: s.subrange(p3, p4),
                                                                cv: "const"@,
                                                                name: s.subrange(p5, p6),
                                                            },
                                                            FuncArgModel {
                                                                typename: s.subrange(p8, p9),
                                                                cv: cv,
                                                                name: s.subrange(p10, p11),
                                                            },
                                                        ],
                                                    },
                                                    p11 + 2,
                                                ),
                                            )
                                        }
                                    }
                                },
                            }
                        }
                    }
                }
            }
        }
    }
}

/// The payload argument's qualifier: either `struct ` follows directly (no
/// qualifier), or one word and more whitespace precede it.
pub open spec fn match_call_tail(s: Seq<char>, p: int) -> Option<(Seq<char>, int)> {
    if starts_with_at(s, p, "struct "@) {
        Some((""@, p + 7))
    } else {
        let v = word_run_from(s, p);
        if v == 0 {
            None
        } else {
            let w2 = ws_run_from(s, p + v);
            if w2 == 0 || !starts_with_at(s, p + v + w2, "struct "@) {
                None
            } else {
                Some((s.subrange(p, p + v), p + v + w2 + 7))
            }
        }
    }
}

pub open spec fn mine_call_from(s: Seq<char>, i: int) -> Seq<FunctionSignatureModel>
    decreases s.len() - i,
{
    if !(0 <= i < s.len()) {
        Seq::empty()
    } else {
        match match_call_at(s, i) {
            Some((sig, end)) => {
                if i < end <= s.len() {
                    seq![sig] + mine_call_from(s, end)
                } else {
                    seq![sig]
                }
            },
            None => mine_call_from(s, i + 1),
        }
    }
}

fn exec_match_call_at(s: &[char], i: usize) -> (r: Option<(FunctionSignature, usize)>)
    requires
        i <= s@.len(),
    ensures
        match r {
            Some((sig, end)) => match_call_at(s@, i as int) matches Some(m) && m.0 == sig@ && m.1
                == end as int && i < end <= s@.len(),
            None => match_call_at(s@, i as int) is None,
        },
{
    let n = s.len();
    let space = str_to_chars(" ");
    let star = str_to_chars(" *");
    let comma = str_to_chars(",");
    let cstruct = str_to_chars("(const struct ");
    let sstruct = str_to_chars("struct ");
    let paren = str_to_chars(");");
    let callsfx = str_to_chars("_call");
    let r = exec_word_run_from(s, i);
    if r == 0 || !exec_starts_with_at(s, i + r, space.as_slice()) {
        return None;
    }
    let ret = clone_chars(&s[i..i + r]);
    proof {
        reveal_strlit(" ");
        assert(i + r + 1 <= s@.len());
    }
    let p1 = i + r + 1;
    let b = exec_word_run_from(s, p1);
    let name = clone_chars(&s[p1..p1 + b]);
    let fits = b > callsfx.len() && exec_starts_with_at(
        name.as_slice(),
        b - callsfx.len(),
        callsfx.as_slice(),
    );
    proof {
        assert(name@ == s@.subrange(p1 as int, p1 + b));
        if b > callsfx@.len() {
            assert(name_fits(name@, "_call"@) == starts_with_at(name@, b - callsfx@.len(), callsfx@))
                by {
                if starts_with_at(name@, b - callsfx@.len(), callsfx@) {
                    assert(name@.subrange(b - callsfx@.len(), b as int) =~= callsfx@);
                }
            }
        }
    }
    if !fits {
        return None;
    }
    let p2 = p1 + b;
    if !exec_starts_with_at(s, p2, cstruct.as_slice()) {
        return None;
    }
    proof {
        reveal_strlit("(const struct ");
        assert(p2 + 14 <= s@.len());
    }
    let p3 = p2 + 14;
    let t1 = exec_word_run_from(s, p3);
    let p4 = p3 + t1;
    if t1 == 0 || !exec_starts_with_at(s, p4, star.as_slice()) {
        return None;
    }
    proof {
        reveal_strlit(" *");
        assert(p4 + 2 <= s@.len());
    }
    let p5 = p4 + 2;
    let d1 = exec_word_run_from(s, p5);
    let p6 = p5 + d1;
    if d1 == 0 || !exec_starts_with_at(s, p6, comma.as_slice()) {
        return None;
    }
    proof {
        reveal_strlit(",");
        assert(p6 + 1 <= s@.len());
    }
    let w = exec_ws_run_from(s, p6 + 1);
    if w == 0 {
        return None;
    }
    let p7 = p6 + 1 + w;
    // the optional qualifier before `struct `
    let cv: Vec<char>;
    let p8: usize;
    if exec_starts_with_at(s, p7, sstruct.as_slice()) {
        cv = str_to_chars("");
        proof {
            reveal_strlit("struct ");
            assert(p7 + 7 <= s@.len());
        }
        p8 = p7 + 7;
    } else {
        let v = exec_word_run_from(s, p7);
        if v == 0 {
            return None;
        }
        let w2 = exec_ws_run_from(s, p7 + v);
        if w2 == 0 || !exec_starts_with_at(s, p7 + v + w2, sstruct.as_slice()) {
            return None;
        }
        cv = clone_chars(&s[p7..p7 + v]);
        proof {
            reveal_strlit("struct ");
            assert(p7 + v + w2 + 7 <= s@.len());
        }
        p8 = p7 + v + w2 + 7;
    }
    proof {
        assert(match_call_tail(s@, p7 as int) == Some((cv@, p8 as int)));
    }
    let t2 = exec_word_run_from(s, p8);
    let p9 = p8 + t2;
    if t2 == 0 || !exec_starts_with_at(s, p9, star.as_slice()) {
        return None;
    }
    proof {
        reveal_strlit(" *");
        assert(p9 + 2 <= s@.len());
    }
    let p10 = p9 + 2;
    let d2 = exec_word_run_from(s, p10);
    let p11 = p10 + d2;
    if d2 == 0 || !exec_starts_with_at(s, p11, paren.as_slice()) {
        return None;
    }
    proof {
        reveal_strlit(");");
        assert(p11 + 2 <= s@.len());
    }
    let closure_arg = FuncArg {
        typename: clone_chars(&s[p3..p4]),
        cv: str_to_chars("const"),
        name: clone_chars(&s[p5..p6]),
    };
    let payload_arg = FuncArg { typename: clone_chars(&s[p8..p9]), cv, name: clone_chars(
        &s[p10..p11],
    ) };
    let ghost a1 = closure_arg@;
    let ghost a2 = payload_arg@;
    let mut args: Vec<FuncArg> = Vec::new();
    args.push(closure_arg);
    args.push(payload_arg);
    let sig = FunctionSignature { return_type: ret, func_name: name, arg_type_and_name: args };
    let end = p11 + 2;
    proof {
        assert(args_view(sig.arg_type_and_name@) =~= seq![a1, a2]);
        assert(sig@ =~= match_call_at(s@, i as int)->Some_0.0);
    }
    Some((sig, end))
}

/// Functions of the `<type>_call` convention; each signature carries the
/// closure argument and the payload argument, in that order.
pub fn find_call_functions(bindings: &[char]) -> (r: Vec<FunctionSignature>)
    ensures
        sigs_view(r@) == mine_call_from(bindings@, 0),
        forall|k: int| 0 <= k < r@.len() ==> (#[trigger] r@[k]@).args.len() == 2,
{
    let mut out: Vec<FunctionSignature> = Vec::new();
    let mut i: usize = 0;
    proof {
        assert(sigs_view(out@) =~= Seq::<FunctionSignatureModel>::empty());
    }
    while i < bindings.len()
        invariant
            i <= bindings@.len(),
            mine_call_from(bindings@, 0) == sigs_view(out@) + mine_call_from(bindings@, i as int),
            forall|k: int| 0 <= k < out@.len() ==> (#[trigger] out@[k]@).args.len() == 2,
        decreases bindings@.len() - i,
    {
        match exec_match_call_at(bindings, i) {
            Some((sig, end)) => {
                let ghost pre = out@;
                let ghost sm = sig@;
                out.push(sig);
                proof {
                    assert(sigs_view(out@) =~= sigs_view(pre).push(sm));
                    assert(sigs_view(pre).push(sm) + mine_call_from(bindings@, end as int)
                        =~= sigs_view(pre) + (seq![sm] + mine_call_from(bindings@, end as int)));
                }
                i = end;
            },
            None => {
                i += 1;
            },
        }
    }
    proof {
        assert(mine_call_from(bindings@, i as int) =~= Seq::<FunctionSignatureModel>::empty());
        assert(sigs_view(out@) + Seq::<FunctionSignatureModel>::empty() =~= sigs_view(out@));
    }
    out
}

} // verus!
