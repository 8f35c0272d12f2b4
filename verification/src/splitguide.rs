//! The split rule resolver: a declarative mapping from output-file name to
//! an ordered list of rules, deciding which output file(s) each record
//! belongs to, with exclusivity overrides.
use vstd::prelude::*;
use crate::record::{Record, RecordModel, RecordType, rec_contains_id};
use crate::text::{clone_chars, exec_eq_chars, str_to_chars, chars_view};

verus! {

/// One routing rule: match all records of a classification (`Brand`), claim
/// records containing an identifier for this file alone (`Exclusive`), or
/// share them (`Shared`).
pub enum SplitRuleModel {
    Brand(RecordType),
    Exclusive(Seq<char>),
    Shared(Seq<char>),
}

pub enum SplitRule {
    Brand(RecordType),
    Exclusive(Vec<char>),
    Shared(Vec<char>),
}

impl View for SplitRule {
    type V = SplitRuleModel;

    open spec fn view(&self) -> SplitRuleModel {
        match self {
            SplitRule::Brand(rt) => SplitRuleModel::Brand(*rt),
            SplitRule::Exclusive(id) => SplitRuleModel::Exclusive(id@),
            SplitRule::Shared(id) => SplitRuleModel::Shared(id@),
        }
    }
}

/// How one rule token reads: a reserved `:`-marker names a classification,
/// an identifier ending in `!` is exclusive, any other identifier is shared.
pub open spec fn parse_rule_spec(s: Seq<char>) -> SplitRuleModel {
    if s == ":functions"@ {
        SplitRuleModel::Brand(RecordType::Function)
    } else if s == ":typedefs"@ {
        SplitRuleModel::Brand(RecordType::Typedef)
    } else if s == ":includes"@ {
        SplitRuleModel::Brand(RecordType::PreprInclude)
    } else if s == ":defines"@ {
        SplitRuleModel::Brand(RecordType::PreprDefine)
    } else if s == ":const"@ {
        SplitRuleModel::Brand(RecordType::Const)
    } else if s == ":multiples"@ {
        SplitRuleModel::Brand(RecordType::Multiple)
    } else if s.len() > 0 && s.last() == '!' {
        SplitRuleModel::Exclusive(s.drop_last())
    } else {
        SplitRuleModel::Shared(s)
    }
}

pub fn parse_rule(s: &[char]) -> (r: SplitRule)
    ensures
        r@ == parse_rule_spec(s@),
{
    let functions = str_to_chars(":functions");
    let typedefs = str_to_chars(":typedefs");
    let includes = str_to_chars(":includes");
    let defines = str_to_chars(":defines");
    let consts = str_to_chars(":const");
    let multiples = str_to_chars(":multiples");
    if exec_eq_chars(s, functions.as_slice()) {
        SplitRule::Brand(RecordType::Function)
    } else if exec_eq_chars(s, typedefs.as_slice()) {
        SplitRule::Brand(RecordType::Typedef)
    } else if exec_eq_chars(s, includes.as_slice()) {
        SplitRule::Brand(RecordType::PreprInclude)
    } else if exec_eq_chars(s, defines.as_slice()) {
        SplitRule::Brand(RecordType::PreprDefine)
    } else if exec_eq_chars(s, consts.as_slice()) {
        SplitRule::Brand(RecordType::Const)
    } else if exec_eq_chars(s, multiples.as_slice()) {
        SplitRule::Brand(RecordType::Multiple)
    } else if s.len() > 0 && s[s.len() - 1] == '!' {
        let id = clone_chars(&s[0..s.len() - 1]);
        proof {
            assert(id@ =~= s@.drop_last());
        }
        SplitRule::Exclusive(id)
    } else {
        SplitRule::Shared(clone_chars(s))
    }
}

/// An ordered mapping from output-file name to its rules, parsed once from
/// the declarative split configuration and immutable afterwards.
pub struct SplitGuide {
    pub rules: Vec<(Vec<char>, Vec<SplitRule>)>,
}

pub type GuideModel = Seq<(Seq<char>, Seq<SplitRuleModel>)>;

impl View for SplitGuide {
    type V = GuideModel;

    open spec fn view(&self) -> GuideModel {
        self.rules@.map_values(
            |p: (Vec<char>, Vec<SplitRule>)|
                (p.0@, p.1@.map_values(|r: SplitRule| r@)),
        )
    }
}

/// What a parsed configuration looks like: each entry's rule tokens read by
/// `parse_rule_spec`, names and order kept.
pub open spec fn parse_entries_spec(entries: Seq<(Seq<char>, Seq<Seq<char>>)>) -> GuideModel {
    entries.map_values(
        |e: (Seq<char>, Seq<Seq<char>>)| (e.0, e.1.map_values(|s: Seq<char>| parse_rule_spec(s))),
    )
}

pub open spec fn entries_view(entries: Seq<(Vec<char>, Vec<Vec<char>>)>) -> Seq<
    (Seq<char>, Seq<Seq<char>>),
> {
    entries.map_values(
        |e: (Vec<char>, Vec<Vec<char>>)| (e.0@, e.1@.map_values(|v: Vec<char>| v@)),
    )
}

impl SplitGuide {
    /// Builds the guide from the configuration's (file name, rule tokens)
    /// entries.
    pub fn from_entries(entries: &Vec<(Vec<char>, Vec<Vec<char>>)>) -> (g: SplitGuide)
        ensures
            g@ == parse_entries_spec(entries_view(entries@)),
    {
        let mut rules: Vec<(Vec<char>, Vec<SplitRule>)> = Vec::new();
        let mut i: usize = 0;
        while i < entries.len()
            invariant
                i <= entries@.len(),
                rules@.map_values(
                    |p: (Vec<char>, Vec<SplitRule>)|
                        (p.0@, p.1@.map_values(|r: SplitRule| r@)),
                ) =~= parse_entries_spec(entries_view(entries@)).take(i as int),
            decreases entries@.len() - i,
        {
            let name = clone_chars(entries[i].0.as_slice());
            let mut file_rules: Vec<SplitRule> = Vec::new();
            let mut k: usize = 0;
            while k < entries[i].1.len()
                invariant
                    i < entries@.len(),
                    k <= entries@[i as int].1@.len(),
                    file_rules@.map_values(|r: SplitRule| r@) =~= entries_view(
                        entries@,
                    )[i as int].1.take(k as int).map_values(|s: Seq<char>| parse_rule_spec(s)),
                decreases entries@[i as int].1@.len() - k,
            {
                let r = parse_rule(entries[i].1[k].as_slice());
                file_rules.push(r);
                proof {
                    assert(entries_view(entries@)[i as int].1.take(k + 1).drop_last()
                        =~= entries_view(entries@)[i as int].1.take(k as int));
                    assert(entries_view(entries@)[i as int].1.take(k + 1).map_values(
                        |s: Seq<char>| parse_rule_spec(s),
                    ) =~= entries_view(entries@)[i as int].1.take(k as int).map_values(
                        |s: Seq<char>| parse_rule_spec(s),
                    ).push(parse_rule_spec(entries_view(entries@)[i as int].1[k as int])));
                }
                k += 1;
            }
            proof {
                assert(entries_view(entries@)[i as int].1.take(
                    entries@[i as int].1@.len() as int,
                ) =~= entries_view(entries@)[i as int].1);
            }
            rules.push((name, file_rules));
            proof {
                assert(parse_entries_spec(entries_view(entries@)).take(i + 1) =~= parse_entries_spec(
                    entries_view(entries@),
                ).take(i as int).push(parse_entries_spec(entries_view(entries@))[i as int]));
                assert(rules@.map_values(
                    |p: (Vec<char>, Vec<SplitRule>)|
                        (p.0@, p.1@.map_values(|r: SplitRule| r@)),
                ) =~= parse_entries_spec(entries_view(entries@)).take(i + 1));
            }
            i += 1;
        }
        proof {
            assert(parse_entries_spec(entries_view(entries@)).take(entries@.len() as int)
                =~= parse_entries_spec(entries_view(entries@)));
        }
        let g = SplitGuide { rules };
        proof {
            assert(g@ =~= parse_entries_spec(entries_view(entries@)));
        }
        g
    }
}

/// A rule contributes a file in the shared tier when it is a matching Brand
/// or Shared rule.
pub open spec fn rule_shared_matches(r: SplitRuleModel, rec: RecordModel) -> bool {
    match r {
        SplitRuleModel::Brand(b) => b == rec.rt,
        SplitRuleModel::Shared(id) => rec_contains_id(rec, id),
        SplitRuleModel::Exclusive(_) => false,
    }
}

/// A rule contributes a file in the exclusive tier when it is a matching
/// Exclusive rule.
pub open spec fn rule_excl_matches(r: SplitRuleModel, rec: RecordModel) -> bool {
    match r {
        SplitRuleModel::Exclusive(id) => rec_contains_id(rec, id),
        _ => false,
    }
}

pub open spec fn rule_matches(r: SplitRuleModel, rec: RecordModel, excl: bool) -> bool {
    if excl {
        rule_excl_matches(r, rec)
    } else {
        rule_shared_matches(r, rec)
    }
}

/// The file names one file's rule list contributes for `rec` in the given
/// tier, one per matching rule, in rule order.
pub open spec fn file_list(
    name: Seq<char>,
    rules: Seq<SplitRuleModel>,
    rec: RecordModel,
    excl: bool,
) -> Seq<Seq<char>>
    decreases rules.len(),
{
    if rules.len() == 0 {
        Seq::empty()
    } else {
        file_list(name, rules.drop_last(), rec, excl) + (if rule_matches(rules.last(), rec, excl) {
            seq![name]
        } else {
            Seq::empty()
        })
    }
}

/// All file names the guide contributes for `rec` in the given tier, in
/// file order then rule order.
pub open spec fn guide_list(guide: GuideModel, rec: RecordModel, excl: bool) -> Seq<Seq<char>>
    decreases guide.len(),
{
    if guide.len() == 0 {
        Seq::empty()
    } else {
        guide_list(guide.drop_last(), rec, excl) + file_list(
            guide.last().0,
            guide.last().1,
            rec,
            excl,
        )
    }
}

/// Resolution: the exclusive candidates when there are any — exclusivity is
/// a hard override that discards every shared and brand match — otherwise
/// the shared/brand candidates (possibly empty, possibly several files).
pub open spec fn appropriate_files_spec(guide: GuideModel, rec: RecordModel) -> Seq<Seq<char>> {
    if guide_list(guide, rec, true).len() == 0 {
        guide_list(guide, rec, false)
    } else {
        guide_list(guide, rec, true)
    }
}

impl SplitGuide {
    /// The output files `record` belongs to.
    pub fn appropriate_files(&self, record: &Record) -> (r: Vec<Vec<char>>)
        ensures
            chars_view(r@) == appropriate_files_spec(self@, record@),
    {
        let shared = self.tier_files(record, false);
        let exclusives = self.tier_files(record, true);
        if exclusives.len() == 0 {
            shared
        } else {
            exclusives
        }
    }

    fn tier_files(&self, record: &Record, excl: bool) -> (r: Vec<Vec<char>>)
        ensures
            chars_view(r@) == guide_list(self@, record@, excl),
    {
        let mut out: Vec<Vec<char>> = Vec::new();
        let mut f: usize = 0;
        proof {
            assert(self@.take(0) =~= Seq::<(Seq<char>, Seq<SplitRuleModel>)>::empty());
            assert(chars_view(out@) =~= guide_list(
                self@.take(0),
                record@,
                excl,
            ));
        }
        while f < self.rules.len()
            invariant
                f <= self.rules@.len(),
                chars_view(out@) == guide_list(
                    self@.take(f as int),
                    record@,
                    excl,
                ),
            decreases self.rules@.len() - f,
        {
            let ghost pre = chars_view(out@);
            let file = &self.rules[f];
            let ghost name = self@[f as int].0;
            let ghost rules = self@[f as int].1;
            let mut k: usize = 0;
            while k < file.1.len()
                invariant
                    f < self.rules@.len(),
                    k <= file.1@.len(),
                    file == &self.rules@[f as int],
                    name == self@[f as int].0,
                    rules == self@[f as int].1,
                    rules.len() == file.1@.len(),
                    chars_view(out@) == pre + file_list(
                        name,
                        rules.take(k as int),
                        record@,
                        excl,
                    ),
                decreases file.1@.len() - k,
            {
                proof {
                    assert(rules[k as int] == file.1@[k as int]@);
                    assert(rules.take(k + 1).drop_last() =~= rules.take(k as int));
                }
                let rule = &file.1[k];
                let hit: bool = if excl {
                    match rule {
                        SplitRule::Exclusive(id) => record.contains_id(id.as_slice()),
                        _ => false,
                    }
                } else {
                    match rule {
                        SplitRule::Brand(b) => *b == record.rt,
                        SplitRule::Shared(id) => record.contains_id(id.as_slice()),
                        _ => false,
                    }
                };
                if hit {
                    let ghost before = chars_view(out@);
                    out.push(clone_chars(file.0.as_slice()));
                    proof {
                        assert(chars_view(out@) =~= before.push(name));
                        assert(pre + file_list(name, rules.take(k + 1), record@, excl) =~= (pre
                            + file_list(name, rules.take(k as int), record@, excl)).push(name));
                    }
                } else {
                    proof {
                        assert(pre + file_list(name, rules.take(k + 1), record@, excl) =~= pre
                            + file_list(name, rules.take(k as int), record@, excl));
                    }
                }
                k += 1;
            }
            proof {
                assert(rules.take(rules.len() as int) =~= rules);
                assert(self@.take(f + 1).drop_last() =~= self@.take(f as int));
                assert(self@.take(f + 1).last() == self@[f as int]);
            }
            f += 1;
        }
        proof {
            assert(self@.take(self.rules@.len() as int) =~= self@);
        }
        out
    }
}


/// The identifier a rule explicitly requests, if any.
pub open spec fn rule_req_ids(r: SplitRuleModel) -> Seq<Seq<char>> {
    match r {
        SplitRuleModel::Brand(_) => Seq::empty(),
        SplitRuleModel::Exclusive(s) => seq![s],
        SplitRuleModel::Shared(s) => seq![s],
    }
}

pub open spec fn file_req_ids(rules: Seq<SplitRuleModel>) -> Seq<Seq<char>>
    decreases rules.len(),
{
    if rules.len() == 0 {
        Seq::empty()
    } else {
        file_req_ids(rules.drop_last()) + rule_req_ids(rules.last())
    }
}

/// Every identifier the configuration names in a Shared or Exclusive rule,
/// in guide order.
pub open spec fn guide_req_ids(guide: GuideModel) -> Seq<Seq<char>>
    decreases guide.len(),
{
    if guide.len() == 0 {
        Seq::empty()
    } else {
        guide_req_ids(guide.drop_last()) + file_req_ids(guide.last().1)
    }
}

impl SplitGuide {
    /// The identifiers explicitly requested by the configuration: each one
    /// must occur in some record, or the configuration names a declaration
    /// that does not exist.
    pub fn requested_ids(&self) -> (r: Vec<Vec<char>>)
        ensures
            chars_view(r@) == guide_req_ids(self@),
    {
        let mut out: Vec<Vec<char>> = Vec::new();
        let mut f: usize = 0;
        proof {
            assert(self@.take(0) =~= Seq::<(Seq<char>, Seq<SplitRuleModel>)>::empty());
            assert(chars_view(out@) =~= guide_req_ids(self@.take(0)));
        }
        while f < self.rules.len()
            invariant
                f <= self.rules@.len(),
                chars_view(out@) == guide_req_ids(self@.take(f as int)),
            decreases self.rules@.len() - f,
        {
            let ghost pre = chars_view(out@);
            let file = &self.rules[f];
            let ghost rules = self@[f as int].1;
            let mut k: usize = 0;
            while k < file.1.len()
                invariant
                    f < self.rules@.len(),
                    k <= file.1@.len(),
                    file == &self.rules@[f as int],
                    rules == self@[f as int].1,
                    rules.len() == file.1@.len(),
                    chars_view(out@) == pre + file_req_ids(rules.take(k as int)),
                decreases file.1@.len() - k,
            {
                proof {
                    assert(rules[k as int] == file.1@[k as int]@);
                    assert(rules.take(k + 1).drop_last() =~= rules.take(k as int));
                }
                let rule = &file.1[k];
                match rule {
                    SplitRule::Brand(_) => {
                        proof {
                            assert(pre + file_req_ids(rules.take(k + 1)) =~= pre + file_req_ids(
                                rules.take(k as int),
                            ));
                        }
                    },
                    SplitRule::Exclusive(id) => {
                        let ghost before = chars_view(out@);
                        out.push(clone_chars(id.as_slice()));
                        proof {
                            assert(chars_view(out@) =~= before.push(id@));
                            assert(pre + file_req_ids(rules.take(k + 1)) =~= (pre + file_req_ids(
                                rules.take(k as int),
                            )).push(id@));
                        }
                    },
                    SplitRule::Shared(id) => {
                        let ghost before = chars_view(out@);
                        out.push(clone_chars(id.as_slice()));
                        proof {
                            assert(chars_view(out@) =~= before.push(id@));
                            assert(pre + file_req_ids(rules.take(k + 1)) =~= (pre + file_req_ids(
                                rules.take(k as int),
                            )).push(id@));
                        }
                    },
                }
                k += 1;
            }
            proof {
                assert(rules.take(rules.len() as int) =~= rules);
                assert(self@.take(f + 1).drop_last() =~= self@.take(f as int));
                assert(self@.take(f + 1).last() == self@[f as int]);
            }
            f += 1;
        }
        proof {
            assert(self@.take(self.rules@.len() as int) =~= self@);
        }
        out
    }
}

proof fn lemma_file_list_contains(
    name: Seq<char>,
    rules: Seq<SplitRuleModel>,
    rec: RecordModel,
    excl: bool,
    n: Seq<char>,
)
    ensures
        file_list(name, rules, rec, excl).contains(n) <==> (n == name && exists|k: int|
            0 <= k < rules.len() && rule_matches(#[trigger] rules[k], rec, excl)),
    decreases rules.len(),
{
    if rules.len() == 0 {
    } else {
        lemma_file_list_contains(name, rules.drop_last(), rec, excl, n);
        let prev = file_list(name, rules.drop_last(), rec, excl);
        let full = file_list(name, rules, rec, excl);
        if full.contains(n) {
            let i = choose|i: int| 0 <= i < full.len() && full[i] == n;
            if i < prev.len() {
                assert(prev[i] == n);
                assert(prev.contains(n));
                let k = choose|k: int|
                    0 <= k < rules.drop_last().len() && rule_matches(
                        #[trigger] rules.drop_last()[k],
                        rec,
                        excl,
                    );
                assert(rules.drop_last()[k] == rules[k]);
                assert(rule_matches(rules[k], rec, excl));
            } else {
                assert(rule_matches(rules.last(), rec, excl));
                assert(full[i] == name);
                assert(rule_matches(rules[rules.len() - 1], rec, excl));
            }
        }
        if n == name && (exists|k: int|
            0 <= k < rules.len() && rule_matches(#[trigger] rules[k], rec, excl)) {
            let k = choose|k: int|
                0 <= k < rules.len() && rule_matches(#[trigger] rules[k], rec, excl);
            if k < rules.len() - 1 {
                assert(rules.drop_last()[k] == rules[k]);
                assert(prev.contains(n));
                let i = choose|i: int| 0 <= i < prev.len() && prev[i] == n;
                assert(full[i] == n);
                assert(full.contains(n));
            } else {
                assert(rule_matches(rules.last(), rec, excl));
                assert(full[prev.len() as int] == name);
                assert(full.contains(n));
            }
        }
    }
}

proof fn lemma_guide_list_contains(guide: GuideModel, rec: RecordModel, excl: bool, n: Seq<char>)
    ensures
        guide_list(guide, rec, excl).contains(n) <==> (exists|f: int, k: int|
            0 <= f < guide.len() && 0 <= k < guide[f].1.len() && guide[f].0 == n && rule_matches(
                #[trigger] guide[f].1[k],
                rec,
                excl,
            )),
    decreases guide.len(),
{
    if guide.len() == 0 {
    } else {
        lemma_guide_list_contains(guide.drop_last(), rec, excl, n);
        lemma_file_list_contains(guide.last().0, guide.last().1, rec, excl, n);
        let prev = guide_list(guide.drop_last(), rec, excl);
        let fl = file_list(guide.last().0, guide.last().1, rec, excl);
        let full = guide_list(guide, rec, excl);
        if full.contains(n) {
            let i = choose|i: int| 0 <= i < full.len() && full[i] == n;
            if i < prev.len() {
                assert(prev[i] == n);
                assert(prev.contains(n));
                let (f, k) = choose|f: int, k: int|
                    0 <= f < guide.drop_last().len() && 0 <= k < guide.drop_last()[f].1.len()
                        && guide.drop_last()[f].0 == n && rule_matches(
                        #[trigger] guide.drop_last()[f].1[k],
                        rec,
                        excl,
                    );
                assert(guide.drop_last()[f] == guide[f]);
                assert(guide[f].0 == n && rule_matches(guide[f].1[k], rec, excl));
            } else {
                assert(fl[i - prev.len()] == n);
                assert(fl.contains(n));
                let k = choose|k: int|
                    0 <= k < guide.last().1.len() && rule_matches(
                        #[trigger] guide.last().1[k],
                        rec,
                        excl,
                    );
                let f = guide.len() - 1;
                assert(guide[f].0 == n && rule_matches(guide[f].1[k], rec, excl));
            }
        }
        if exists|f: int, k: int|
            0 <= f < guide.len() && 0 <= k < guide[f].1.len() && guide[f].0 == n && rule_matches(
                #[trigger] guide[f].1[k],
                rec,
                excl,
            ) {
            let (f, k) = choose|f: int, k: int|
                0 <= f < guide.len() && 0 <= k < guide[f].1.len() && guide[f].0 == n && rule_matches(
                    #[trigger] guide[f].1[k],
                    rec,
                    excl,
                );
            if f < guide.len() - 1 {
                assert(guide.drop_last()[f] == guide[f]);
                assert(prev.contains(n));
                let i = choose|i: int| 0 <= i < prev.len() && prev[i] == n;
                assert(full[i] == n);
                assert(full.contains(n));
            } else {
                assert(fl.contains(n));
                let i = choose|i: int| 0 <= i < fl.len() && fl[i] == n;
                assert(full[prev.len() + i] == n);
                assert(full.contains(n));
            }
        }
    }
}

/// A tier list contains a file name exactly when some rule of a file of
/// that name matches the record in that tier.
pub proof fn lemma_tier_contains(guide: GuideModel, rec: RecordModel, excl: bool, n: Seq<char>)
    ensures
        guide_list(guide, rec, excl).contains(n) <==> (exists|f: int, k: int|
            0 <= f < guide.len() && 0 <= k < guide[f].1.len() && guide[f].0 == n && rule_matches(
                #[trigger] guide[f].1[k],
                rec,
                excl,
            )),
{
    lemma_guide_list_contains(guide, rec, excl, n);
}

/// Exclusivity precedence: when a record matches an Exclusive rule of file
/// `b`, resolution routes it to `b`; and it is not routed to file `a` when
/// no rule of a file named like `a` matches it exclusively — even when `a`
/// has a matching Shared or Brand rule.
pub proof fn lemma_exclusive_precedence(guide: GuideModel, rec: RecordModel, a: int, b: int)
    requires
        0 <= a < guide.len(),
        0 <= b < guide.len(),
        exists|k: int|
            0 <= k < guide[b].1.len() && rule_excl_matches(#[trigger] guide[b].1[k], rec),
        forall|f: int, k: int|
            0 <= f < guide.len() && 0 <= k < guide[f].1.len() && guide[f].0 == guide[a].0
                ==> !rule_excl_matches(#[trigger] guide[f].1[k], rec),
    ensures
        appropriate_files_spec(guide, rec).contains(guide[b].0),
        !appropriate_files_spec(guide, rec).contains(guide[a].0),
{
    lemma_guide_list_contains(guide, rec, true, guide[b].0);
    lemma_guide_list_contains(guide, rec, true, guide[a].0);
    let k = choose|k: int|
        0 <= k < guide[b].1.len() && rule_excl_matches(#[trigger] guide[b].1[k], rec);
    assert(rule_matches(guide[b].1[k], rec, true));
    assert(guide_list(guide, rec, true).contains(guide[b].0));
}

} // verus!
