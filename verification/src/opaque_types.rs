//! The opaque-type module generator: it recovers each opaque type's name,
//! alignment and size from the probe output, pairs it with the
//! documentation block written for it, and emits the module of fixed-size
//! byte-layout structs. The pairing must be one-to-one in both directions:
//! a documented type with no layout, or a layout with no documentation, is
//! fatal.
use vstd::prelude::*;
use crate::text::{
    word_run_from, digit_run_from, word_run_back, ws_run_from, ws_run_back, find_char_from,
    rfind_char, starts_with_at, exec_word_run_from, exec_digit_run_from, exec_word_run_back,
    exec_ws_run_from, exec_ws_run_back, exec_find_char_from, exec_rfind_char, exec_starts_with_at,
    exec_eq_chars, clone_chars, push_chars, str_to_chars, chars_view, lemma_find_char_bounds,
};

verus! {

/// One opaque type's recovered layout, kept textually: its name, its
/// alignment and its size in bytes.
#[verifier::ext_equal]
pub struct OpaqueTypeModel {
    pub name: Seq<char>,
    pub align: Seq<char>,
    pub size: Seq<char>,
}

pub struct OpaqueType {
    pub name: Vec<char>,
    pub align: Vec<char>,
    pub size: Vec<char>,
}

impl View for OpaqueType {
    type V = OpaqueTypeModel;

    open spec fn view(&self) -> OpaqueTypeModel {
        OpaqueTypeModel { name: self.name@, align: self.align@, size: self.size@ }
    }
}

pub open spec fn opaques_view(v: Seq<OpaqueType>) -> Seq<OpaqueTypeModel> {
    v.map_values(|t: OpaqueType| t@)
}

/// Matches one layout report at `i`: `type: ` name `, align: ` digits
/// `, size: ` digits.
pub open spec fn match_opaque_at(s: Seq<char>, i: int) -> Option<(OpaqueTypeModel, int)> {
    if !starts_with_at(s, i, "type: "@) {
        None
    } else {
        let p0 = i + 6;
        let a = word_run_from(s, p0);
        let p1 = p0 + a;
        if a == 0 || !starts_with_at(s, p1, ", align: "@) {
            None
        } else {
            let p2 = p1 + 9;
            let b = digit_run_from(s, p2);
            let p3 = p2 + b;
            if b == 0 || !starts_with_at(s, p3, ", size: "@) {
                None
            } else {
                let p4 = p3 + 8;
                let c = digit_run_from(s, p4);
                let p5 = p4 + c;
                if c == 0 {
                    None
                } else {
                    Some(
                        (
                            OpaqueTypeModel {
                                name: s.subrange(p0, p1),
                                align: s.subrange(p2, p3),
                                size: s.subrange(p4, p5),
                            },
                            p5,
                        ),
                    )
                }
            }
        }
    }
}

/// The layout reports found in the probe output, in textual order.
pub open spec fn mine_opaque_from(s: Seq<char>, i: int) -> Seq<OpaqueTypeModel>
    decreases s.len() - i,
{
    if !(0 <= i < s.len()) {
        Seq::empty()
    } else {
        match match_opaque_at(s, i) {
            Some((t, end)) => {
                if i < end <= s.len() {
                    seq![t] + mine_opaque_from(s, end)
                } else {
                    seq![t]
                }
            },
            None => mine_opaque_from(s, i + 1),
        }
    }
}

fn exec_match_opaque_at(s: &[char], i: usize) -> (r: Option<(OpaqueType, usize)>)
    requires
        i <= s@.len(),
    ensures
        match r {
            Some((t, end)) => match_opaque_at(s@, i as int) matches Some(m) && m.0 == t@ && m.1
                == end as int && i < end <= s@.len(),
            None => match_opaque_at(s@, i as int) is None,
        },
{
    let n = s.len();
    let lit_type = str_to_chars("type: ");
    let lit_align = str_to_chars(", align: ");
    let lit_size = str_to_chars(", size: ");
    if !exec_starts_with_at(s, i, lit_type.as_slice()) {
        return None;
    }
    proof {
        reveal_strlit("type: ");
        assert(i + 6 <= n);
    }
    let p0 = i + 6;
    let a = exec_word_run_from(s, p0);
    let p1 = p0 + a;
    if a == 0 || !exec_starts_with_at(s, p1, lit_align.as_slice()) {
        return None;
    }
    proof {
        reveal_strlit(", align: ");
    }
    let p2 = p1 + 9;
    let b = exec_digit_run_from(s, p2);
    let p3 = p2 + b;
    if b == 0 || !exec_starts_with_at(s, p3, lit_size.as_slice()) {
        return None;
    }
    proof {
        reveal_strlit(", size: ");
    }
    let p4 = p3 + 8;
    let c = exec_digit_run_from(s, p4);
    let p5 = p4 + c;
    if c == 0 {
        return None;
    }
    let t = OpaqueType {
        name: clone_chars(&s[p0..p1]),
        align: clone_chars(&s[p2..p3]),
        size: clone_chars(&s[p4..p5]),
    };
    proof {
        assert(t@ =~= match_opaque_at(s@, i as int)->Some_0.0);
    }
    Some((t, p5))
}

/// Every opaque-type layout report in the probe output, in order.
pub fn find_opaque_types(data: &[char]) -> (r: Vec<OpaqueType>)
    ensures
        opaques_view(r@) == mine_opaque_from(data@, 0),
{
    let mut out: Vec<OpaqueType> = Vec::new();
    let mut i: usize = 0;
    proof {
        assert(opaques_view(out@) =~= Seq::<OpaqueTypeModel>::empty());
    }
    while i < data.len()
        invariant
            i <= data@.len(),
            mine_opaque_from(data@, 0) == opaques_view(out@) + mine_opaque_from(data@, i as int),
        decreases data@.len() - i,
    {
        match exec_match_opaque_at(data, i) {
            Some((t, end)) => {
                let ghost pre = out@;
                let ghost tm = t@;
                out.push(t);
                proof {
                    assert(opaques_view(out@) =~= opaques_view(pre).push(tm));
                    assert(opaques_view(pre).push(tm) + mine_opaque_from(data@, end as int)
                        =~= opaques_view(pre) + (seq![tm] + mine_opaque_from(data@, end as int)));
                }
                i = end;
            },
            None => {
                i += 1;
            },
        }
    }
    proof {
        assert(mine_opaque_from(data@, i as int) =~= Seq::<OpaqueTypeModel>::empty());
        assert(opaques_view(out@) + Seq::<OpaqueTypeModel>::empty() =~= opaques_view(out@));
    }
    out
}


/// The documentation entries: one `(type name, comment lines)` pair per
/// documented opaque type.
pub type DocsModel = Seq<(Seq<char>, Seq<Seq<char>>)>;

/// The type name a marker line registers documentation for: after leading
/// whitespace the line invokes the probe marker, and the name is the word
/// run just before the closing parenthesis, preceded by a comma.
pub open spec fn marker_name(line: Seq<char>) -> Option<Seq<char>> {
    let w = ws_run_from(line, 0);
    if !starts_with_at(line, w, "get_opaque_type_data!("@) {
        None
    } else {
        match rfind_char(line, line.len() as int, ')') {
            None => None,
            Some(rp) => {
                let r = word_run_back(line, rp);
                let wb = ws_run_back(line, rp - r);
                if r == 0 || rp - r - wb < 1 || line[rp - r - wb - 1] != ',' {
                    None
                } else {
                    Some(line.subrange(rp - r, rp))
                }
            },
        }
    }
}

/// First index among the entries bearing `name`.
pub open spec fn doc_idx_from(docs: DocsModel, name: Seq<char>, i: int) -> Option<int>
    decreases docs.len() - i,
{
    if !(0 <= i < docs.len()) {
        None
    } else if docs[i].0 == name {
        Some(i)
    } else {
        doc_idx_from(docs, name, i + 1)
    }
}

/// Registers a documentation block: a later block for the same name
/// replaces the earlier one.
pub open spec fn docs_insert(docs: DocsModel, name: Seq<char>, comments: Seq<Seq<char>>) -> DocsModel {
    match doc_idx_from(docs, name, 0) {
        None => docs.push((name, comments)),
        Some(k) => docs.remove(k).push((name, comments)),
    }
}

/// One line of the source, stripped of a trailing carriage return.
pub open spec fn strip_cr(line: Seq<char>) -> Seq<char> {
    if line.len() > 0 && line.last() == '\r' {
        line.drop_last()
    } else {
        line
    }
}

/// Scans the documentation source line by line: consecutive `///` lines
/// accumulate; a marker line registers them under its type name; any other
/// line discards them.
pub open spec fn doc_scan(
    s: Seq<char>,
    i: int,
    comments: Seq<Seq<char>>,
    docs: DocsModel,
) -> DocsModel
    decreases s.len() - i,
{
    if !(0 <= i < s.len()) {
        docs
    } else {
        let has_nl = find_char_from(s, i, '\n') is Some;
        let e = match find_char_from(s, i, '\n') {
            Some(j) => j,
            None => s.len() as int,
        };
        let line = strip_cr(s.subrange(i, e));
        let comments2 = if starts_with_at(line, 0, "///"@) {
            comments.push(line)
        } else {
            Seq::empty()
        };
        let docs2 = if starts_with_at(line, 0, "///"@) {
            docs
        } else {
            match marker_name(line) {
                Some(name) => docs_insert(docs, name, comments),
                None => docs,
            }
        };
        if has_nl && i <= e < s.len() {
            doc_scan(s, e + 1, comments2, docs2)
        } else {
            docs2
        }
    }
}

pub open spec fn docs_spec(s: Seq<char>) -> DocsModel {
    doc_scan(s, 0, Seq::empty(), Seq::empty())
}

fn exec_marker_name(line: &[char]) -> (r: Option<Vec<char>>)
    ensures
        match r {
            Some(name) => marker_name(line@) == Some(name@),
            None => marker_name(line@) is None,
        },
{
    let n = line.len();
    let lit = str_to_chars("get_opaque_type_data!(");
    let w = exec_ws_run_from(line, 0);
    if !exec_starts_with_at(line, w, lit.as_slice()) {
        return None;
    }
    match exec_rfind_char(line, n, ')') {
        None => None,
        Some(rp) => {
            let r = exec_word_run_back(line, rp);
            let wb = exec_ws_run_back(line, rp - r);
            if r == 0 || rp - r - wb < 1 || !(line[rp - r - wb - 1] == ',') {
                return None;
            }
            Some(clone_chars(&line[rp - r..rp]))
        },
    }
}

/// The model of the executable documentation table.
pub open spec fn docs_view(v: Seq<(Vec<char>, Vec<Vec<char>>)>) -> DocsModel {
    v.map_values(|e: (Vec<char>, Vec<Vec<char>>)| (e.0@, chars_view(e.1@)))
}

fn exec_doc_idx(docs: &Vec<(Vec<char>, Vec<Vec<char>>)>, name: &[char]) -> (r: Option<usize>)
    ensures
        match r {
            Some(k) => doc_idx_from(docs_view(docs@), name@, 0) == Some(k as int) && k
                < docs@.len(),
            None => doc_idx_from(docs_view(docs@), name@, 0) is None,
        },
{
    let ghost dv = docs_view(docs@);
    let mut k: usize = 0;
    while k < docs.len()
        invariant
            k <= docs@.len(),
            dv == docs_view(docs@),
            doc_idx_from(dv, name@, 0) == doc_idx_from(dv, name@, k as int),
        decreases docs@.len() - k,
    {
        proof {
            assert(dv[k as int].0 == docs@[k as int].0@);
        }
        if exec_eq_chars(docs[k].0.as_slice(), name) {
            return Some(k);
        }
        k += 1;
    }
    None
}

/// Reads the documentation blocks out of the probe source, keyed by opaque
/// type name, in first-appearance order; a later block for the same name
/// replaces the earlier one.
#[verifier::loop_isolation(false)]
pub fn get_opaque_type_docs(source: &[char]) -> (r: Vec<(Vec<char>, Vec<Vec<char>>)>)
    ensures
        docs_view(r@) == docs_spec(source@),
{
    let lit_doc = str_to_chars("///");
    let mut comments: Vec<Vec<char>> = Vec::new();
    let mut docs: Vec<(Vec<char>, Vec<Vec<char>>)> = Vec::new();
    let mut i: usize = 0;
    let n = source.len();
    proof {
        assert(chars_view(comments@) =~= Seq::<Seq<char>>::empty());
        assert(docs_view(docs@) =~= Seq::<(Seq<char>, Seq<Seq<char>>)>::empty());
    }
    while i < n
        invariant
            i <= n,
            docs_spec(source@) == doc_scan(
                source@,
                i as int,
                chars_view(comments@),
                docs_view(docs@),
            ),
        decreases n - i,
    {
        proof {
            lemma_find_char_bounds(source@, i as int, '\n');
        }
        let (e, has_nl) = match exec_find_char_from(source, i, '\n') {
            Some(j) => (j, true),
            None => (n, false),
        };
        let mut line = clone_chars(&source[i..e]);
        if line.len() > 0 && line[line.len() - 1] == '\r' {
            let _ = line.pop();
            proof {
                assert(line@ =~= strip_cr(source@.subrange(i as int, e as int)));
            }
        }
        proof {
            assert(line@ == strip_cr(source@.subrange(i as int, e as int)));
        }
        if exec_starts_with_at(line.as_slice(), 0, lit_doc.as_slice()) {
            let ghost pre = chars_view(comments@);
            comments.push(line);
            proof {
                assert(chars_view(comments@) =~= pre.push(
                    strip_cr(source@.subrange(i as int, e as int)),
                ));
            }
        } else {
            match exec_marker_name(line.as_slice()) {
                Some(name) => {
                    let ghost dpre = docs_view(docs@);
                    let ghost cpre = chars_view(comments@);
                    let mut block: Vec<Vec<char>> = Vec::new();
                    core::mem::swap(&mut comments, &mut block);
                    match exec_doc_idx(&docs, name.as_slice()) {
                        Some(k) => {
                            let ghost removed = dpre.remove(k as int);
                            let _ = docs.remove(k);
                            proof {
                                assert(docs_view(docs@) =~= removed);
                            }
                            docs.push((name, block));
                            proof {
                                assert(docs_view(docs@) =~= removed.push(
                                    (marker_name(strip_cr(
                                        source@.subrange(i as int, e as int),
                                    ))->Some_0, cpre),
                                ));
                            }
                        },
                        None => {
                            docs.push((name, block));
                            proof {
                                assert(docs_view(docs@) =~= dpre.push(
                                    (marker_name(strip_cr(
                                        source@.subrange(i as int, e as int),
                                    ))->Some_0, cpre),
                                ));
                            }
                        },
                    }
                    proof {
                        assert(chars_view(comments@) =~= Seq::<Seq<char>>::empty());
                    }
                },
                None => {
                    comments.clear();
                    proof {
                        assert(chars_view(comments@) =~= Seq::<Seq<char>>::empty());
                    }
                },
            }
        }
        if has_nl {
            i = e + 1;
        } else {
            i = n;
            proof {
                assert(doc_scan(source@, i as int, chars_view(comments@), docs_view(docs@))
                    == docs_view(docs@));
            }
            return docs;
        }
    }
    docs
}


/// First still-unused documentation entry bearing `name`, at or after `i`.
pub open spec fn doc_idx_unused(
    docs: DocsModel,
    used: Seq<bool>,
    name: Seq<char>,
    i: int,
) -> Option<int>
    decreases docs.len() - i,
{
    if !(0 <= i < docs.len()) {
        None
    } else if i < used.len() && !used[i] && docs[i].0 == name {
        Some(i)
    } else {
        doc_idx_unused(docs, used, name, i + 1)
    }
}

/// First `false` at or after `i`.
pub open spec fn first_unused_doc(used: Seq<bool>, i: int) -> Option<int>
    decreases used.len() - i,
{
    if !(0 <= i < used.len()) {
        None
    } else if !used[i] {
        Some(i)
    } else {
        first_unused_doc(used, i + 1)
    }
}

/// The first `i` documentation lines, each terminated the way the emitted
/// module writes them.
pub open spec fn render_doc_lines(comments: Seq<Seq<char>>, i: int) -> Seq<char>
    decreases i,
{
    if i <= 0 {
        Seq::empty()
    } else {
        render_doc_lines(comments, i - 1) + comments[i - 1] + "\r\n"@
    }
}

/// The field name hiding the byte layout; one well-known type keeps its
/// historical field name.
pub open spec fn field_name(name: Seq<char>) -> Seq<char> {
    if name == "z_id_t"@ {
        "id"@
    } else {
        "_0"@
    }
}

/// The emitted struct for one opaque type: a fixed-size, fixed-alignment
/// byte array under the type's public name.
pub open spec fn render_struct(t: OpaqueTypeModel) -> Seq<char> {
    "#[derive(Copy, Clone)]\n#[repr(C, align("@ + t.align + "))]\npub struct "@ + t.name
        + " {\n    "@ + field_name(t.name) + ": [u8; "@ + t.size + "],\n}\n"@
}

/// Everything the opaque-module generation can end in.
pub enum OpaqueOutcome {
    /// The emitted module text.
    Module(Seq<char>),
    /// This opaque type has no documentation block.
    MissingDoc(Seq<char>),
    /// This documented type has no layout report.
    UnmatchedDoc(Seq<char>),
}

/// Pairs each mined layout, in order, with the documentation block of the
/// same name, consuming it; a layout with no block, or a block left
/// unconsumed at the end, is fatal.
pub open spec fn gen_opaque_from(
    mined: Seq<OpaqueTypeModel>,
    docs: DocsModel,
    used: Seq<bool>,
    j: int,
) -> OpaqueOutcome
    decreases mined.len() - j,
{
    if !(0 <= j < mined.len()) {
        match first_unused_doc(used, 0) {
            Some(k) => OpaqueOutcome::UnmatchedDoc(docs[k].0),
            None => OpaqueOutcome::Module(Seq::empty()),
        }
    } else {
        match doc_idx_unused(docs, used, mined[j].name, 0) {
            None => OpaqueOutcome::MissingDoc(mined[j].name),
            Some(k) => match gen_opaque_from(mined, docs, used.update(k, true), j + 1) {
                OpaqueOutcome::Module(rest) => OpaqueOutcome::Module(
                    render_doc_lines(docs[k].1, docs[k].1.len() as int) + render_struct(mined[j])
                        + rest,
                ),
                e => e,
            },
        }
    }
}

/// The whole opaque-type module for a probe output and its documentation
/// source.
pub open spec fn opaque_module_spec(data: Seq<char>, source: Seq<char>) -> OpaqueOutcome {
    let mined = mine_opaque_from(data, 0);
    let docs = docs_spec(source);
    match gen_opaque_from(mined, docs, Seq::new(docs.len(), |k: int| false), 0) {
        OpaqueOutcome::Module(body) => OpaqueOutcome::Module(
            "#[rustfmt::skip]\n#[allow(clippy::all)]\n"@ + body,
        ),
        e => e,
    }
}

/// A fatal mismatch between the documented and the probed opaque types.
#[derive(Debug)]
pub enum OpaqueError {
    /// This opaque type has no documentation block.
    MissingDoc { name: Vec<char> },
    /// This documented type has no layout report.
    UnmatchedDoc { name: Vec<char> },
}

fn exec_doc_idx_unused(
    docs: &Vec<(Vec<char>, Vec<Vec<char>>)>,
    used: &Vec<bool>,
    name: &[char],
) -> (r: Option<usize>)
    ensures
        match r {
            Some(k) => doc_idx_unused(docs_view(docs@), used@, name@, 0) == Some(k as int) && k
                < docs@.len() && k < used@.len(),
            None => doc_idx_unused(docs_view(docs@), used@, name@, 0) is None,
        },
{
    let ghost dv = docs_view(docs@);
    let mut k: usize = 0;
    while k < docs.len()
        invariant
            k <= docs@.len(),
            dv == docs_view(docs@),
            doc_idx_unused(dv, used@, name@, 0) == doc_idx_unused(dv, used@, name@, k as int),
        decreases docs@.len() - k,
    {
        proof {
            assert(dv[k as int].0 == docs@[k as int].0@);
        }
        if k < used.len() && !used[k] && exec_eq_chars(docs[k].0.as_slice(), name) {
            return Some(k);
        }
        k += 1;
    }
    None
}

/// Generates the opaque-type module: every probed layout documented, every
/// documentation block consumed.
#[verifier::loop_isolation(false)]
#[verifier::rlimit(60)]
pub fn generate_opaque_types(data: &[char], source: &[char]) -> (r: Result<Vec<char>, OpaqueError>)
    ensures
        match r {
            Ok(out) => opaque_module_spec(data@, source@) == OpaqueOutcome::Module(out@),
            Err(e) => match e {
                OpaqueError::MissingDoc { name } => opaque_module_spec(data@, source@)
                    == OpaqueOutcome::MissingDoc(name@),
                OpaqueError::UnmatchedDoc { name } => opaque_module_spec(data@, source@)
                    == OpaqueOutcome::UnmatchedDoc(name@),
            },
        },
{
    let mined = find_opaque_types(data);
    let docs = get_opaque_type_docs(source);
    let ghost minedv = opaques_view(mined@);
    let ghost docsv = docs_view(docs@);
    let mut used: Vec<bool> = Vec::new();
    let mut q: usize = 0;
    while q < docs.len()
        invariant
            q <= docs@.len(),
            used@ =~= Seq::new(q as nat, |k: int| false),
        decreases docs@.len() - q,
    {
        used.push(false);
        proof {
            assert(used@ =~= Seq::new((q + 1) as nat, |k: int| false));
        }
        q += 1;
    }
    proof {
        assert(used@ =~= Seq::new(docsv.len(), |k: int| false));
    }
    let crlf = str_to_chars("\r\n");
    let lit_zid = str_to_chars("z_id_t");
    let mut out = str_to_chars("#[rustfmt::skip]\n#[allow(clippy::all)]\n");
    let mut j: usize = 0;
    while j < mined.len()
        invariant
            j <= mined@.len(),
            used@.len() == docs@.len(),
            opaque_module_spec(data@, source@) == (match gen_opaque_from(
                minedv,
                docsv,
                used@,
                j as int,
            ) {
                OpaqueOutcome::Module(rest) => OpaqueOutcome::Module(out@ + rest),
                e => e,
            }),
        decreases mined@.len() - j,
    {
        let t = &mined[j];
        proof {
            assert(t@ == minedv[j as int]);
        }
        match exec_doc_idx_unused(&docs, &used, t.name.as_slice()) {
            None => {
                return Err(OpaqueError::MissingDoc { name: clone_chars(t.name.as_slice()) });
            },
            Some(k) => {
                let ghost pre = out@;
                let block = &docs[k].1;
                let ghost lines = docsv[k as int].1;
                proof {
                    assert(lines == chars_view(block@));
                }
                let mut q2: usize = 0;
                while q2 < block.len()
                    invariant
                        q2 <= block@.len(),
                        lines == chars_view(block@),
                        out@ == pre + render_doc_lines(lines, q2 as int),
                    decreases block@.len() - q2,
                {
                    proof {
                        assert(lines[q2 as int] == block@[q2 as int]@);
                    }
                    push_chars(&mut out, block[q2].as_slice());
                    push_chars(&mut out, crlf.as_slice());
                    q2 += 1;
                    proof {
                        assert(out@ =~= pre + render_doc_lines(lines, q2 as int));
                    }
                }
                proof {
                    assert(out@ == pre + render_doc_lines(lines, lines.len() as int));
                }
                let ghost pre2 = out@;
                push_chars(&mut out, str_to_chars("#[derive(Copy, Clone)]\n#[repr(C, align(").as_slice());
                push_chars(&mut out, t.align.as_slice());
                push_chars(&mut out, str_to_chars("))]\npub struct ").as_slice());
                push_chars(&mut out, t.name.as_slice());
                push_chars(&mut out, str_to_chars(" {\n    ").as_slice());
                if exec_eq_chars(t.name.as_slice(), lit_zid.as_slice()) {
                    push_chars(&mut out, str_to_chars("id").as_slice());
                } else {
                    push_chars(&mut out, str_to_chars("_0").as_slice());
                }
                push_chars(&mut out, str_to_chars(": [u8; ").as_slice());
                push_chars(&mut out, t.size.as_slice());
                push_chars(&mut out, str_to_chars("],\n}\n").as_slice());
                proof {
                    assert(out@ =~= pre2 + render_struct(minedv[j as int]));
                }
                let ghost used_pre = used@;
                used.set(k, true);
                proof {
                    assert(used@ =~= used_pre.update(k as int, true));
                    match gen_opaque_from(minedv, docsv, used@, j + 1) {
                        OpaqueOutcome::Module(rest) => {
                            assert(pre + (render_doc_lines(lines, lines.len() as int)
                                + render_struct(minedv[j as int]) + rest) =~= out@ + rest);
                        },
                        _ => {},
                    }
                }
            },
        }
        j += 1;
    }
    // every documentation block must have been consumed
    let mut k: usize = 0;
    while k < used.len()
        invariant
            k <= used@.len(),
            used@.len() == docs@.len(),
            first_unused_doc(used@, 0) == first_unused_doc(used@, k as int),
        decreases used@.len() - k,
    {
        if !used[k] {
            proof {
                assert(first_unused_doc(used@, 0) == Some(k as int));
                assert(docsv[k as int].0 == docs@[k as int].0@);
            }
            return Err(OpaqueError::UnmatchedDoc { name: clone_chars(docs[k].0.as_slice()) });
        }
        k += 1;
    }
    Ok(out)
}

} // verus!
