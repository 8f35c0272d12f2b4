//! The splitter: orchestrates tokenizing, grouping and rule resolution,
//! produces the per-file output contents, and enforces the two
//! exhaustiveness invariants (every requested identifier found, every
//! non-trivial record routed somewhere).
use vstd::prelude::*;
use crate::token::{tokenize, tokenize_spec, tokens_view, TokenModel};
use crate::record::{
    group_tokens, group_spec, Record, RecordModel, RecordType, rec_contains_id, render_record_spec,
    records_view,
};
use crate::splitguide::{SplitGuide, GuideModel, appropriate_files_spec, guide_req_ids};
use crate::text::{clone_chars, push_chars, str_to_chars, chars_view};

verus! {

/// The fixed banner every generated header starts with.
pub open spec fn header_spec() -> Seq<char> {
    "//
// Copyright (c) 2022 ZettaScale Technology
//
// This program and the accompanying materials are made available under the
// terms of the Eclipse Public License 2.0 which is available at
// http://www.eclipse.org/legal/epl-2.0, or the Apache License, Version 2.0
// which is available at https://www.apache.org/licenses/LICENSE-2.0.
//
// SPDX-License-Identifier: EPL-2.0 OR Apache-2.0
//
// Contributors:
//   ZettaScale Zenoh Team, <zenoh@zettascale.tech>
//
#ifdef DOCS
#define ALIGN(n)
#define ZENOHC_API
#endif
"@
}

pub fn header_text() -> (r: &'static str)
    ensures
        r@ == header_spec(),
{
    "//
// Copyright (c) 2022 ZettaScale Technology
//
// This program and the accompanying materials are made available under the
// terms of the Eclipse Public License 2.0 which is available at
// http://www.eclipse.org/legal/epl-2.0, or the Apache License, Version 2.0
// which is available at https://www.apache.org/licenses/LICENSE-2.0.
//
// SPDX-License-Identifier: EPL-2.0 OR Apache-2.0
//
// Contributors:
//   ZettaScale Zenoh Team, <zenoh@zettascale.tech>
//
#ifdef DOCS
#define ALIGN(n)
#define ZENOHC_API
#endif
"
}

/// Some record of `recs` contains the identifier `id`.
pub open spec fn some_rec_contains(recs: Seq<RecordModel>, id: Seq<char>) -> bool {
    exists|r: int| 0 <= r < recs.len() && rec_contains_id(#[trigger] recs[r], id)
}

/// Index (at or after `i`) of the first requested identifier that occurs in
/// no record: a configuration error.
pub open spec fn first_missing_from(ids: Seq<Seq<char>>, recs: Seq<RecordModel>, i: int) -> Option<
    int,
>
    decreases ids.len() - i,
{
    if !(0 <= i < ids.len()) {
        None
    } else if !some_rec_contains(recs, ids[i]) {
        Some(i)
    } else {
        first_missing_from(ids, recs, i + 1)
    }
}

/// A record that must reach at least one output file: every record whose
/// classification is neither Empty nor PrivateToken.
pub open spec fn record_needs_use(rec: RecordModel) -> bool {
    rec.rt != RecordType::Empty && rec.rt != RecordType::PrivateToken
}

/// A record is used when resolution routes it to at least one file.
pub open spec fn record_used(guide: GuideModel, rec: RecordModel) -> bool {
    appropriate_files_spec(guide, rec).len() > 0
}

/// Index (at or after `i`) of the first record that needs routing but is
/// routed nowhere: an exhaustiveness error.
pub open spec fn first_unused_from(recs: Seq<RecordModel>, guide: GuideModel, i: int) -> Option<
    int,
>
    decreases recs.len() - i,
{
    if !(0 <= i < recs.len()) {
        None
    } else if record_needs_use(recs[i]) && !record_used(guide, recs[i]) {
        Some(i)
    } else {
        first_unused_from(recs, guide, i + 1)
    }
}

/// Occurrences of `n` in a name list.
pub open spec fn count_name(l: Seq<Seq<char>>, n: Seq<char>) -> nat
    decreases l.len(),
{
    if l.len() == 0 {
        0
    } else {
        count_name(l.drop_last(), n) + if l.last() == n {
            1nat
        } else {
            0nat
        }
    }
}

pub open spec fn repeat_seq(x: Seq<char>, n: nat) -> Seq<char>
    decreases n,
{
    if n == 0 {
        Seq::empty()
    } else {
        repeat_seq(x, (n - 1) as nat) + x
    }
}

/// The content of the output file `name` after the first `i` records: the
/// banner, then each record routed to `name`, rendered once per matching
/// rule, in record order.
pub open spec fn content_upto(
    recs: Seq<RecordModel>,
    guide: GuideModel,
    name: Seq<char>,
    i: int,
) -> Seq<char>
    decreases i,
{
    if i <= 0 {
        header_spec()
    } else {
        content_upto(recs, guide, name, i - 1) + repeat_seq(
            render_record_spec(recs[i - 1]),
            count_name(appropriate_files_spec(guide, recs[i - 1]), name),
        )
    }
}

pub open spec fn file_content_spec(
    recs: Seq<RecordModel>,
    guide: GuideModel,
    name: Seq<char>,
) -> Seq<char> {
    content_upto(recs, guide, name, recs.len() as int)
}

/// Everything a run of the splitter can end in. All errors are fatal: no
/// output is produced beside `Files`.
pub enum SplitOutcome {
    /// One `(name, content)` pair per configured file, in guide order.
    Files(Seq<(Seq<char>, Seq<char>)>),
    /// No recognizer matched the declaration text at this offset.
    GrammarErr(int),
    /// The token at this index is an `#endif` closing nothing.
    EndifErr(int),
    /// The configuration requests an identifier no record contains.
    MissingIdErr(Seq<char>),
    /// A record (with these identifiers) was routed to no file.
    UnusedErr(Seq<Seq<char>>),
}

/// The whole pipeline as one function of the declaration text and the
/// guide: tokenize, group, check the requested identifiers, check
/// exhaustiveness, and emit one content per configured file.
pub open spec fn split_result_spec(text: Seq<char>, guide: GuideModel) -> SplitOutcome {
    match tokenize_spec(text) {
        Err(o) => SplitOutcome::GrammarErr(o),
        Ok(toks) => match group_spec(toks) {
            Err(k) => SplitOutcome::EndifErr(k),
            Ok(recs) => match first_missing_from(guide_req_ids(guide), recs, 0) {
                Some(m) => SplitOutcome::MissingIdErr(guide_req_ids(guide)[m]),
                None => match first_unused_from(recs, guide, 0) {
                    Some(u) => SplitOutcome::UnusedErr(recs[u].ids),
                    None => SplitOutcome::Files(
                        Seq::new(
                            guide.len(),
                            |f: int| (guide[f].0, file_content_spec(recs, guide, guide[f].0)),
                        ),
                    ),
                },
            },
        },
    }
}

/// A fatal error of the splitter; the run produced nothing.
#[derive(Debug)]
pub enum SplitError {
    /// No recognizer matched the declaration text at `offset`.
    Grammar { offset: usize },
    /// The token at `index` is an `#endif` closing nothing.
    UnmatchedEndif { index: usize },
    /// The configuration requests `id`, but no record contains it.
    MissingId { id: Vec<char> },
    /// The record with these identifiers was routed to no file.
    UnusedRecord { ids: Vec<Vec<char>> },
}

fn some_record_contains(records: &Vec<Record>, id: &[char]) -> (b: bool)
    ensures
        b == some_rec_contains(records_view(records@), id@),
{
    let ghost recs = records_view(records@);
    let mut r: usize = 0;
    while r < records.len()
        invariant
            r <= records@.len(),
            recs == records_view(records@),
            forall|q: int| 0 <= q < r ==> !rec_contains_id(#[trigger] recs[q], id@),
        decreases records@.len() - r,
    {
        if records[r].contains_id(id) {
            assert(rec_contains_id(recs[r as int], id@));
            return true;
        }
        r += 1;
    }
    false
}

/// Splits the declaration text into the configured output files. Fatal on a
/// grammar error, an unmatched `#endif`, a requested identifier that no
/// record contains, or a non-trivial record that no rule routes anywhere.
#[verifier::loop_isolation(false)]
pub fn split_bindings(bindings: &[char], split_guide: &SplitGuide) -> (r: Result<
    Vec<(Vec<char>, Vec<char>)>,
    SplitError,
>)
    ensures
        match r {
            Ok(outs) => split_result_spec(bindings@, split_guide@) == SplitOutcome::Files(
                outs@.map_values(|p: (Vec<char>, Vec<char>)| (p.0@, p.1@)),
            ),
            Err(e) => match e {
                SplitError::Grammar { offset } => split_result_spec(bindings@, split_guide@)
                    == SplitOutcome::GrammarErr(offset as int),
                SplitError::UnmatchedEndif { index } => split_result_spec(bindings@, split_guide@)
                    == SplitOutcome::EndifErr(index as int),
                SplitError::MissingId { id } => split_result_spec(bindings@, split_guide@)
                    == SplitOutcome::MissingIdErr(id@),
                SplitError::UnusedRecord { ids } => split_result_spec(bindings@, split_guide@)
                    == SplitOutcome::UnusedErr(chars_view(ids@)),
            },
        },
{
    let toks = match tokenize(bindings) {
        Ok(toks) => toks,
        Err(e) => {
            return Err(SplitError::Grammar { offset: e.offset });
        },
    };
    let ghost tokview = tokens_view(toks@);
    proof {
        assert(tokenize_spec(bindings@) == Ok::<Seq<TokenModel>, int>(tokview));
    }
    let records = match group_tokens(toks) {
        Ok(records) => records,
        Err(e) => {
            return Err(SplitError::UnmatchedEndif { index: e.index });
        },
    };
    let ghost recs = records_view(records@);
    let ghost req = guide_req_ids(split_guide@);

    // every identifier the configuration requests must occur somewhere
    let requested = split_guide.requested_ids();
    let mut m: usize = 0;
    while m < requested.len()
        invariant
            m <= requested@.len(),
            recs == records_view(records@),
            req == chars_view(requested@),
            first_missing_from(req, recs, 0) == first_missing_from(req, recs, m as int),
        decreases requested@.len() - m,
    {
        if !some_record_contains(&records, requested[m].as_slice()) {
            let id = clone_chars(requested[m].as_slice());
            proof {
                assert(req[m as int] == requested@[m as int]@);
                assert(first_missing_from(req, recs, m as int) == Some(m as int));
                assert(id@ == req[m as int]);
                assert(group_spec(tokview) == Ok::<Seq<RecordModel>, int>(recs));
                assert(split_result_spec(bindings@, split_guide@) == SplitOutcome::MissingIdErr(
                    id@,
                ));
            }
            return Err(SplitError::MissingId { id });
        }
        proof {
            assert(req[m as int] == requested@[m as int]@);
        }
        m += 1;
    }

    // every non-trivial record must be routed somewhere
    let mut u: usize = 0;
    while u < records.len()
        invariant
            u <= records@.len(),
            recs == records_view(records@),
            req == chars_view(requested@),
            first_missing_from(req, recs, 0) is None,
            first_unused_from(recs, split_guide@, 0) == first_unused_from(
                recs,
                split_guide@,
                u as int,
            ),
        decreases records@.len() - u,
    {
        let needs = !(records[u].rt == RecordType::Empty) && !(records[u].rt
            == RecordType::PrivateToken);
        if needs {
            let files = split_guide.appropriate_files(&records[u]);
            if files.len() == 0 {
                let mut ids: Vec<Vec<char>> = Vec::new();
                let rec = &records[u];
                proof {
                    assert(rec@ == recs[u as int]);
                }
                let mut q: usize = 0;
                while q < rec.ids.len()
                    invariant
                        q <= rec.ids@.len(),
                        chars_view(ids@) =~= rec@.ids.take(q as int),
                    decreases rec.ids@.len() - q,
                {
                    proof {
                        assert(rec@.ids[q as int] == rec.ids@[q as int]@);
                        assert(rec@.ids.take(q + 1).drop_last() =~= rec@.ids.take(q as int));
                    }
                    ids.push(clone_chars(rec.ids[q].as_slice()));
                    proof {
                        assert(chars_view(ids@) =~= rec@.ids.take(q + 1));
                    }
                    q += 1;
                }
                proof {
                    assert(rec@.ids.take(rec.ids@.len() as int) =~= rec@.ids);
                    assert(record_needs_use(recs[u as int]) && !record_used(
                        split_guide@,
                        recs[u as int],
                    ));
                    assert(first_unused_from(recs, split_guide@, u as int) == Some(u as int));
                    assert(chars_view(ids@) == recs[u as int].ids);
                    assert(group_spec(tokview) == Ok::<Seq<RecordModel>, int>(recs));
                    assert(split_result_spec(bindings@, split_guide@) == SplitOutcome::UnusedErr(
                        chars_view(ids@),
                    ));
                }
                return Err(SplitError::UnusedRecord { ids });
            }
        }
        u += 1;
    }

    // emit one content per configured file, in guide order
    let mut outs: Vec<(Vec<char>, Vec<char>)> = Vec::new();
    let nfiles = split_guide.rules.len();
    let mut f: usize = 0;
    while f < nfiles
        invariant
            f <= nfiles,
            nfiles == split_guide.rules@.len(),
            nfiles == split_guide@.len(),
            recs == records_view(records@),
            req == chars_view(requested@),
            first_missing_from(req, recs, 0) is None,
            first_unused_from(recs, split_guide@, 0) is None,
            outs@.len() == f,
            forall|g: int|
                0 <= g < f ==> (#[trigger] outs@[g]).0@ == split_guide@[g].0 && outs@[g].1@
                    == file_content_spec(recs, split_guide@, split_guide@[g].0),
        decreases nfiles - f,
    {
        let name = clone_chars(split_guide.rules[f].0.as_slice());
        let ghost name_s = split_guide@[f as int].0;
        proof {
            assert(name@ == name_s);
        }
        let mut content: Vec<char> = Vec::new();
        let header = str_to_chars(header_text());
        push_chars(&mut content, header.as_slice());
        proof {
            assert(content@ =~= content_upto(recs, split_guide@, name_s, 0));
        }
        let mut i: usize = 0;
        while i < records.len()
            invariant
                i <= records@.len(),
                f < split_guide.rules@.len(),
                recs == records_view(records@),
                name_s == name@,
                name_s == split_guide@[f as int].0,
                content@ == content_upto(recs, split_guide@, name_s, i as int),
            decreases records@.len() - i,
        {
            let files = split_guide.appropriate_files(&records[i]);
            let rendered = records[i].render();
            let ghost flist = appropriate_files_spec(split_guide@, recs[i as int]);
            proof {
                assert(chars_view(files@) == flist);
            }
            let mut j: usize = 0;
            while j < files.len()
                invariant
                    j <= files@.len(),
                    i < records@.len(),
                    recs == records_view(records@),
                    flist == chars_view(files@),
                    rendered@ == render_record_spec(recs[i as int]),
                    name_s == name@,
                    content@ == content_upto(recs, split_guide@, name_s, i as int) + repeat_seq(
                        render_record_spec(recs[i as int]),
                        count_name(flist.take(j as int), name_s),
                    ),
                decreases files@.len() - j,
            {
                proof {
                    assert(flist.take(j + 1).drop_last() =~= flist.take(j as int));
                    assert(flist.take(j + 1).last() == flist[j as int]);
                }
                proof {
                    assert(flist[j as int] == files@[j as int]@);
                }
                let ghost c = count_name(flist.take(j as int), name_s);
                if crate::text::exec_eq_chars(files[j].as_slice(), name.as_slice()) {
                    push_chars(&mut content, rendered.as_slice());
                    proof {
                        assert(count_name(flist.take(j + 1), name_s) == c + 1);
                        assert(repeat_seq(render_record_spec(recs[i as int]), c + 1) == repeat_seq(
                            render_record_spec(recs[i as int]),
                            c,
                        ) + render_record_spec(recs[i as int]));
                        assert(content@ =~= content_upto(recs, split_guide@, name_s, i as int)
                            + repeat_seq(render_record_spec(recs[i as int]), c + 1));
                    }
                } else {
                    proof {
                        assert(count_name(flist.take(j + 1), name_s) == c);
                    }
                }
                j += 1;
            }
            proof {
                assert(flist.take(flist.len() as int) =~= flist);
                assert(content_upto(recs, split_guide@, name_s, i + 1) == content_upto(
                    recs,
                    split_guide@,
                    name_s,
                    i as int,
                ) + repeat_seq(
                    render_record_spec(recs[i as int]),
                    count_name(flist, name_s),
                ));
            }
            i += 1;
        }
        proof {
            assert(content@ == file_content_spec(recs, split_guide@, name_s));
        }
        outs.push((name, content));
        f += 1;
    }
    proof {
        assert(outs@.map_values(|p: (Vec<char>, Vec<char>)| (p.0@, p.1@)) =~= Seq::new(
            split_guide@.len(),
            |g: int| (split_guide@[g].0, file_content_spec(recs, split_guide@, split_guide@[g].0)),
        ));
    }
    Ok(outs)
}

/// Idempotence: the pipeline is a pure function of the declaration text and
/// the configuration; two runs on identical input and configuration yield
/// identical outcomes, output contents included.
pub proof fn lemma_idempotent(
    text: Seq<char>,
    guide: GuideModel,
    r1: SplitOutcome,
    r2: SplitOutcome,
)
    requires
        r1 == split_result_spec(text, guide),
        r2 == split_result_spec(text, guide),
    ensures
        r1 == r2,
{
}

proof fn lemma_first_unused_none(recs: Seq<RecordModel>, guide: GuideModel, i: int)
    requires
        0 <= i,
    ensures
        (first_unused_from(recs, guide, i) is None) <==> (forall|u: int|
            i <= u < recs.len() && record_needs_use(#[trigger] recs[u]) ==> record_used(
                guide,
                recs[u],
            )),
    decreases recs.len() - i,
{
    if 0 <= i < recs.len() {
        lemma_first_unused_none(recs, guide, i + 1);
    }
}

/// Exhaustiveness: when the run succeeds, every record whose classification
/// is neither Empty nor PrivateToken has been routed to at least one output
/// file; and when such a record matches no rule of any file, the run fails.
pub proof fn lemma_exhaustiveness(
    text: Seq<char>,
    guide: GuideModel,
    toks: Seq<TokenModel>,
    recs: Seq<RecordModel>,
)
    requires
        tokenize_spec(text) == Ok::<Seq<TokenModel>, int>(toks),
        group_spec(toks) == Ok::<Seq<RecordModel>, int>(recs),
    ensures
        (split_result_spec(text, guide) is Files) ==> (forall|u: int|
            0 <= u < recs.len() && record_needs_use(#[trigger] recs[u]) ==> record_used(
                guide,
                recs[u],
            )),
        (exists|u: int|
            0 <= u < recs.len() && record_needs_use(#[trigger] recs[u]) && !record_used(
                guide,
                recs[u],
            )) ==> !(split_result_spec(text, guide) is Files),
{
    lemma_first_unused_none(recs, guide, 0);
}

} // verus!
