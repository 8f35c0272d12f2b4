//! The record grouper: folds the token stream into records, one per logical
//! declaration, tracking preprocessor nesting, and renders a record for
//! output (comments first, whitespace dropped).
use vstd::prelude::*;
use crate::token::{Token, TokenModel, TokenType, tokens_view};
use crate::text::{clone_chars, push_chars};
use vstd::multiset::Multiset;

verus! {

#[derive(Debug, Clone, Copy, PartialEq, Eq, Structural)]
pub enum RecordType {
    Empty,
    Multiple,
    PrivateToken,
    Typedef,
    Function,
    Const,
    PreprDefine,
    PreprInclude,
}

/// The classification a token contributes to its record, if any.
pub open spec fn classify(tt: TokenType) -> Option<RecordType> {
    match tt {
        TokenType::Typedef => Some(RecordType::Typedef),
        TokenType::Function => Some(RecordType::Function),
        TokenType::Const => Some(RecordType::Const),
        TokenType::PrivateToken => Some(RecordType::PrivateToken),
        TokenType::PreprDefine => Some(RecordType::PreprDefine),
        TokenType::PreprInclude => Some(RecordType::PreprInclude),
        _ => None,
    }
}

/// The merge rule for record classifications: the first classification wins,
/// and a second, different classification forces `Multiple`.
pub open spec fn rt_update(cur: RecordType, rt: RecordType) -> RecordType {
    if cur == RecordType::Empty {
        rt
    } else if cur == RecordType::Multiple {
        cur
    } else if cur == rt {
        cur
    } else {
        RecordType::Multiple
    }
}

/// The mathematical value of a record: its classification, the depth of
/// still-open conditional blocks, the identifiers contributed by its
/// classifying tokens, and its tokens in order.
#[verifier::ext_equal]
pub struct RecordModel {
    pub rt: RecordType,
    pub nesting: int,
    pub ids: Seq<Seq<char>>,
    pub tokens: Seq<TokenModel>,
}

/// The record contains `id` among the identifiers contributed by its
/// classifying tokens.
pub open spec fn rec_contains_id(rec: RecordModel, id: Seq<char>) -> bool {
    exists|k: int| 0 <= k < rec.ids.len() && rec.ids[k] == id
}

pub open spec fn empty_record() -> RecordModel {
    RecordModel { rt: RecordType::Empty, nesting: 0, ids: Seq::empty(), tokens: Seq::empty() }
}

/// Folds one token into a record. `None` is the fatal case: an `#endif`
/// with no matching open conditional.
pub open spec fn add_token_spec(rec: RecordModel, t: TokenModel) -> Option<RecordModel> {
    match classify(t.tt) {
        Some(rt) => Some(
            RecordModel {
                rt: rt_update(rec.rt, rt),
                nesting: rec.nesting,
                ids: if t.id.len() > 0 {
                    rec.ids.push(t.id)
                } else {
                    rec.ids
                },
                tokens: rec.tokens.push(t),
            },
        ),
        None => match t.tt {
            TokenType::PreprIf => Some(
                RecordModel { nesting: rec.nesting + 1, tokens: rec.tokens.push(t), ..rec },
            ),
            TokenType::PreprEndif => {
                if rec.nesting == 0 {
                    None
                } else {
                    Some(
                        RecordModel {
                            nesting: rec.nesting - 1,
                            tokens: rec.tokens.push(t),
                            ..rec
                        },
                    )
                }
            },
            _ => Some(RecordModel { tokens: rec.tokens.push(t), ..rec }),
        },
    }
}

/// A record is sealed exactly when nesting has returned to zero and it has
/// a classification.
pub open spec fn is_ready_spec(rec: RecordModel) -> bool {
    rec.nesting == 0 && rec.rt != RecordType::Empty
}

/// Groups the remaining tokens, given the record accumulated so far and the
/// records already sealed. The final accumulator is always appended, so no
/// trailing comments or whitespace are lost. `Err(k)` reports the position
/// (within the remaining tokens) of an unmatched `#endif`.
pub open spec fn group_from(
    toks: Seq<TokenModel>,
    acc: RecordModel,
    done: Seq<RecordModel>,
) -> Result<Seq<RecordModel>, int>
    decreases toks.len(),
{
    if toks.len() == 0 {
        Ok(done.push(acc))
    } else {
        match add_token_spec(acc, toks[0]) {
            None => Err(0),
            Some(acc2) => {
                let rest = if is_ready_spec(acc2) {
                    group_from(toks.drop_first(), empty_record(), done.push(acc2))
                } else {
                    group_from(toks.drop_first(), acc2, done)
                };
                match rest {
                    Ok(recs) => Ok(recs),
                    Err(k) => Err(1 + k),
                }
            },
        }
    }
}

pub open spec fn group_spec(toks: Seq<TokenModel>) -> Result<Seq<RecordModel>, int> {
    group_from(toks, empty_record(), Seq::empty())
}

/// The mathematical value of a record list.
pub open spec fn records_view(v: Seq<Record>) -> Seq<RecordModel> {
    v.map_values(|r: Record| r@)
}

/// An unmatched `#endif`: the token at `index` closes a conditional that
/// was never opened.
#[derive(Debug)]
pub struct GroupError {
    pub index: usize,
}

/// One logical declaration plus its leading comments and any enclosing
/// preprocessor conditional.
pub struct Record {
    pub rt: RecordType,
    pub nesting: usize,
    pub ids: Vec<Vec<char>>,
    pub tokens: Vec<Token>,
}

impl View for Record {
    type V = RecordModel;

    open spec fn view(&self) -> RecordModel {
        RecordModel {
            rt: self.rt,
            nesting: self.nesting as int,
            ids: self.ids@.map_values(|v: Vec<char>| v@),
            tokens: self.tokens@.map_values(|t: Token| t@),
        }
    }
}

pub fn clone_token(t: &Token) -> (r: Token)
    ensures
        r@ == t@,
{
    Token { tt: t.tt, id: clone_chars(t.id.as_slice()), span: clone_chars(t.span.as_slice()) }
}

impl Record {
    pub fn new() -> (r: Record)
        ensures
            r@ == empty_record(),
    {
        let r = Record { rt: RecordType::Empty, nesting: 0, ids: Vec::new(), tokens: Vec::new() };
        proof {
            assert(r@ =~= empty_record());
        }
        r
    }

    pub fn contains_id(&self, id: &[char]) -> (b: bool)
        ensures
            b == rec_contains_id(self@, id@),
    {
        let mut k: usize = 0;
        while k < self.ids.len()
            invariant
                k <= self.ids@.len(),
                forall|j: int| 0 <= j < k ==> self@.ids[j] != id@,
            decreases self.ids@.len() - k,
        {
            if crate::text::exec_eq_chars(self.ids[k].as_slice(), id) {
                assert(self@.ids[k as int] == id@);
                return true;
            }
            k += 1;
        }
        false
    }

    pub fn is_ready(&self) -> (b: bool)
        ensures
            b == is_ready_spec(self@),
    {
        self.nesting == 0 && !(self.rt == RecordType::Empty)
    }

    /// Folds one token into the record; fails on an `#endif` that closes
    /// nothing. The token-count bound keeps the nesting counter within
    /// machine limits.
    pub fn add_token(&mut self, t: Token) -> (r: Result<(), GroupError>)
        requires
            old(self)@.nesting <= old(self)@.tokens.len(),
            old(self)@.tokens.len() < usize::MAX,
        ensures
            match r {
                Ok(()) => add_token_spec(old(self)@, t@) == Some(final(self)@)
                    && final(self)@.nesting <= final(self)@.tokens.len(),
                Err(_) => add_token_spec(old(self)@, t@) is None && final(self)@ == old(self)@,
            },
    {
        let ghost pre = self@;
        match t.tt {
            TokenType::Typedef | TokenType::Function | TokenType::Const | TokenType::PrivateToken
                | TokenType::PreprDefine | TokenType::PreprInclude => {
                let rt = match t.tt {
                    TokenType::Typedef => RecordType::Typedef,
                    TokenType::Function => RecordType::Function,
                    TokenType::Const => RecordType::Const,
                    TokenType::PrivateToken => RecordType::PrivateToken,
                    TokenType::PreprDefine => RecordType::PreprDefine,
                    _ => RecordType::PreprInclude,
                };
                self.rt = if self.rt == RecordType::Empty {
                    rt
                } else if self.rt == RecordType::Multiple {
                    self.rt
                } else if self.rt == rt {
                    self.rt
                } else {
                    RecordType::Multiple
                };
                if t.id.len() > 0 {
                    let id = clone_chars(t.id.as_slice());
                    self.ids.push(id);
                }
                self.tokens.push(t);
                proof {
                    assert(self@.ids =~= add_token_spec(pre, t@)->Some_0.ids);
                    assert(self@.tokens =~= pre.tokens.push(t@));
                    assert(self@ =~= add_token_spec(pre, t@)->Some_0);
                }
                Ok(())
            },
            TokenType::PreprIf => {
                self.nesting += 1;
                self.tokens.push(t);
                proof {
                    assert(self@.tokens =~= pre.tokens.push(t@));
                    assert(self@ =~= add_token_spec(pre, t@)->Some_0);
                }
                Ok(())
            },
            TokenType::PreprEndif => {
                if self.nesting == 0 {
                    return Err(GroupError { index: 0 });
                }
                self.nesting -= 1;
                self.tokens.push(t);
                proof {
                    assert(self@.tokens =~= pre.tokens.push(t@));
                    assert(self@ =~= add_token_spec(pre, t@)->Some_0);
                }
                Ok(())
            },
            _ => {
                self.tokens.push(t);
                proof {
                    assert(self@.tokens =~= pre.tokens.push(t@));
                    assert(self@ =~= add_token_spec(pre, t@)->Some_0);
                }
                Ok(())
            },
        }
    }
}

/// Folds the token sequence into records. The final accumulator (possibly
/// empty) is always appended. `Err` reports the index of an unmatched
/// `#endif`.
pub fn group_tokens(tokens: Vec<Token>) -> (r: Result<Vec<Record>, GroupError>)
    ensures
        match r {
            Ok(recs) => group_spec(tokens_view(tokens@)) == Ok::<_, int>(records_view(recs@)),
            Err(e) => group_spec(tokens_view(tokens@)) == Err::<Seq<RecordModel>, int>(
                e.index as int,
            ) && e.index < tokens@.len(),
        },
{
    let ghost toks = tokens_view(tokens@);
    let mut records: Vec<Record> = Vec::new();
    let mut record_collect = Record::new();
    let mut i: usize = 0;
    proof {
        assert(toks.skip(0) =~= toks);
        assert(records_view(records@) =~= Seq::<RecordModel>::empty());
    }
    while i < tokens.len()
        invariant
            i <= tokens@.len(),
            toks == tokens_view(tokens@),
            record_collect@.nesting <= record_collect@.tokens.len(),
            record_collect@.tokens.len() <= i,
            group_spec(toks) == (match group_from(
                toks.skip(i as int),
                record_collect@,
                records_view(records@),
            ) {
                Ok(recs) => Ok::<_, int>(recs),
                Err(k) => Err::<Seq<RecordModel>, int>(i + k),
            }),
        decreases tokens@.len() - i,
    {
        let t = clone_token(&tokens[i]);
        let ghost pre_acc = record_collect@;
        let ghost pre_done = records_view(records@);
        proof {
            assert(toks.skip(i as int)[0] == t@);
            assert(toks.skip(i as int).drop_first() =~= toks.skip(i + 1));
        }
        match record_collect.add_token(t) {
            Err(_) => {
                return Err(GroupError { index: i });
            },
            Ok(()) => {},
        }
        if record_collect.is_ready() {
            let mut sealed = Record::new();
            core::mem::swap(&mut record_collect, &mut sealed);
            let ghost acc2 = sealed@;
            records.push(sealed);
            proof {
                assert(records_view(records@) =~= pre_done.push(acc2));
            }
        }
        i += 1;
    }
    let ghost final_acc = record_collect@;
    let ghost final_done = records_view(records@);
    proof {
        assert(toks.skip(i as int) =~= Seq::<TokenModel>::empty());
        assert(group_spec(toks) == Ok::<_, int>(final_done.push(final_acc)));
    }
    records.push(record_collect);
    proof {
        assert(records_view(records@) =~= final_done.push(final_acc));
    }
    Ok(records)
}


/// Number of tokens of kind `tt` in `toks`.
pub open spec fn count_tt(toks: Seq<TokenModel>, tt: TokenType) -> int
    decreases toks.len(),
{
    if toks.len() == 0 {
        0
    } else {
        count_tt(toks.drop_last(), tt) + if toks.last().tt == tt {
            1int
        } else {
            0int
        }
    }
}

proof fn lemma_count_take_step(toks: Seq<TokenModel>, tt: TokenType, p: int)
    requires
        1 <= p <= toks.len(),
    ensures
        count_tt(toks.take(p), tt) == count_tt(toks.take(p - 1), tt) + (if toks[p - 1].tt == tt {
            1int
        } else {
            0int
        }),
{
    assert(toks.take(p).drop_last() =~= toks.take(p - 1));
    assert(toks.take(p).last() == toks[p - 1]);
}

proof fn lemma_group_err_iff_from(toks: Seq<TokenModel>, acc: RecordModel, done: Seq<RecordModel>)
    requires
        acc.nesting >= 0,
    ensures
        (group_from(toks, acc, done) is Err) <==> (exists|p: int|
            0 <= p <= toks.len() && count_tt(toks.take(p), TokenType::PreprEndif) - count_tt(
                toks.take(p),
                TokenType::PreprIf,
            ) > acc.nesting),
    decreases toks.len(),
{
    let e = TokenType::PreprEndif;
    let f = TokenType::PreprIf;
    if toks.len() == 0 {
        assert forall|p: int|
            0 <= p <= toks.len() implies !(count_tt(toks.take(p), e) - count_tt(toks.take(p), f)
            > acc.nesting) by {
            assert(toks.take(p) =~= Seq::<TokenModel>::empty());
        }
    } else {
        let t = toks[0];
        let rest = toks.drop_first();
        assert(toks.take(1) =~= seq![t]);
        assert(seq![t].drop_last() =~= Seq::<TokenModel>::empty());
        assert(count_tt(Seq::<TokenModel>::empty(), e) == 0);
        assert(count_tt(Seq::<TokenModel>::empty(), f) == 0);
        assert(seq![t].last() == t);
        assert(count_tt(toks.take(1), e) == if t.tt == e {
            1int
        } else {
            0int
        });
        assert(count_tt(toks.take(1), f) == if t.tt == f {
            1int
        } else {
            0int
        });
        match add_token_spec(acc, t) {
            None => {
                assert(t.tt == e && acc.nesting == 0);
                assert(count_tt(toks.take(1), e) - count_tt(toks.take(1), f) > acc.nesting);
            },
            Some(acc2) => {
                let d = acc2.nesting - acc.nesting;
                assert(d == (if t.tt == f {
                    1int
                } else if t.tt == e {
                    -1int
                } else {
                    0int
                }));
                assert(acc2.nesting >= 0);
                if is_ready_spec(acc2) {
                    lemma_group_err_iff_from(rest, empty_record(), done.push(acc2));
                    assert(empty_record().nesting == acc2.nesting);
                } else {
                    lemma_group_err_iff_from(rest, acc2, done);
                }
                // translate prefixes of `rest` to prefixes of `toks` and back
                assert forall|q: int| 0 <= q <= rest.len() implies count_tt(toks.take(q + 1), e)
                    - count_tt(toks.take(q + 1), f) == count_tt(rest.take(q), e) - count_tt(
                    rest.take(q),
                    f,
                ) - d by {
                    lemma_count_shift(toks, q);
                }
                if group_from(toks, acc, done) is Err {
                    let q = choose|q: int|
                        0 <= q <= rest.len() && count_tt(rest.take(q), e) - count_tt(rest.take(q), f)
                            > acc2.nesting;
                    assert(count_tt(toks.take(q + 1), e) - count_tt(toks.take(q + 1), f)
                        > acc.nesting);
                } else {
                    assert forall|p: int|
                        0 <= p <= toks.len() implies !(count_tt(toks.take(p), e) - count_tt(
                        toks.take(p),
                        f,
                    ) > acc.nesting) by {
                        if p == 0 {
                            assert(toks.take(0) =~= Seq::<TokenModel>::empty());
                        } else {
                            assert(!(count_tt(rest.take(p - 1), e) - count_tt(rest.take(p - 1), f)
                                > acc2.nesting));
                        }
                    }
                }
            },
        }
    }
}

proof fn lemma_count_shift(toks: Seq<TokenModel>, q: int)
    requires
        toks.len() > 0,
        0 <= q <= toks.len() - 1,
    ensures
        count_tt(toks.take(q + 1), TokenType::PreprEndif) - count_tt(
            toks.take(q + 1),
            TokenType::PreprIf,
        ) == count_tt(toks.drop_first().take(q), TokenType::PreprEndif) - count_tt(
            toks.drop_first().take(q),
            TokenType::PreprIf,
        ) + (if toks[0].tt == TokenType::PreprEndif {
            1int
        } else {
            0int
        }) - (if toks[0].tt == TokenType::PreprIf {
            1int
        } else {
            0int
        }),
    decreases q,
{
    let e = TokenType::PreprEndif;
    let f = TokenType::PreprIf;
    let rest = toks.drop_first();
    if q == 0 {
        assert(toks.take(1) =~= seq![toks[0]]);
        assert(seq![toks[0]].drop_last() =~= Seq::<TokenModel>::empty());
        assert(count_tt(Seq::<TokenModel>::empty(), e) == 0);
        assert(count_tt(Seq::<TokenModel>::empty(), f) == 0);
        assert(seq![toks[0]].last() == toks[0]);
        assert(rest.take(0) =~= Seq::<TokenModel>::empty());
    } else {
        lemma_count_shift(toks, q - 1);
        lemma_count_take_step(toks, e, q + 1);
        lemma_count_take_step(toks, f, q + 1);
        lemma_count_take_step(rest, e, q);
        lemma_count_take_step(rest, f, q);
        assert(rest[q - 1] == toks[q]);
    }
}

/// Nesting invariant: grouping fails exactly when, in some prefix of the
/// token stream, the `#endif` tokens outnumber the `#if`-family tokens.
pub proof fn lemma_nesting_invariant(toks: Seq<TokenModel>)
    ensures
        (group_spec(toks) is Err) <==> (exists|p: int|
            0 <= p <= toks.len() && count_tt(toks.take(p), TokenType::PreprEndif) > count_tt(
                toks.take(p),
                TokenType::PreprIf,
            )),
{
    lemma_group_err_iff_from(toks, empty_record(), Seq::empty());
}

/// Concatenation of the token lists of a record sequence.
pub open spec fn cat_tokens(recs: Seq<RecordModel>) -> Seq<TokenModel>
    decreases recs.len(),
{
    if recs.len() == 0 {
        Seq::empty()
    } else {
        cat_tokens(recs.drop_last()) + recs.last().tokens
    }
}

proof fn lemma_group_partitions_from(
    toks: Seq<TokenModel>,
    acc: RecordModel,
    done: Seq<RecordModel>,
    recs: Seq<RecordModel>,
)
    requires
        group_from(toks, acc, done) == Ok::<Seq<RecordModel>, int>(recs),
    ensures
        cat_tokens(recs) == cat_tokens(done) + acc.tokens + toks,
    decreases toks.len(),
{
    if toks.len() == 0 {
        assert(recs == done.push(acc));
        assert(done.push(acc).drop_last() =~= done);
        assert(cat_tokens(recs) =~= cat_tokens(done) + acc.tokens + toks);
    } else {
        let t = toks[0];
        let acc2 = add_token_spec(acc, t)->Some_0;
        assert(acc2.tokens == acc.tokens.push(t));
        let rest = toks.drop_first();
        if is_ready_spec(acc2) {
            lemma_group_partitions_from(rest, empty_record(), done.push(acc2), recs);
            assert(done.push(acc2).drop_last() =~= done);
            assert(cat_tokens(done.push(acc2)) =~= cat_tokens(done) + acc2.tokens);
            assert(cat_tokens(done) + acc2.tokens + empty_record().tokens + rest =~= cat_tokens(
                done,
            ) + acc.tokens + toks);
        } else {
            lemma_group_partitions_from(rest, acc2, done, recs);
            assert(cat_tokens(done) + acc2.tokens + rest =~= cat_tokens(done) + acc.tokens + toks);
        }
    }
}

/// Grouping only partitions: the records''' token lists, concatenated in
/// order, are exactly the token stream.
pub proof fn lemma_group_partitions(toks: Seq<TokenModel>, recs: Seq<RecordModel>)
    requires
        group_spec(toks) == Ok::<Seq<RecordModel>, int>(recs),
    ensures
        cat_tokens(recs) == toks,
{
    lemma_group_partitions_from(toks, empty_record(), Seq::empty(), recs);
    assert(cat_tokens(Seq::<RecordModel>::empty()) + empty_record().tokens + toks =~= toks);
}


/// The spans of the significant (non-whitespace) tokens, in order.
pub open spec fn significant_spans(ts: Seq<TokenModel>) -> Seq<Seq<char>>
    decreases ts.len(),
{
    if ts.len() == 0 {
        Seq::empty()
    } else {
        significant_spans(ts.drop_last()) + (if ts.last().tt != TokenType::Whitespace {
            seq![ts.last().span]
        } else {
            Seq::empty()
        })
    }
}

/// The spans a rendering pass emits: the comment pass takes the comment
/// tokens, the code pass every other non-whitespace token.
pub open spec fn pass_emits(t: TokenModel, comment_pass: bool) -> bool {
    t.tt != TokenType::Whitespace && (comment_pass == (t.tt == TokenType::Comment))
}

pub open spec fn part_spans(ts: Seq<TokenModel>, comment_pass: bool) -> Seq<Seq<char>>
    decreases ts.len(),
{
    if ts.len() == 0 {
        Seq::empty()
    } else {
        part_spans(ts.drop_last(), comment_pass) + (if pass_emits(ts.last(), comment_pass) {
            seq![ts.last().span]
        } else {
            Seq::empty()
        })
    }
}

/// The spans a record contributes to its output files: all its comments
/// first, then its other non-whitespace tokens, both in original order.
pub open spec fn emitted_spans(r: RecordModel) -> Seq<Seq<char>> {
    part_spans(r.tokens, true) + part_spans(r.tokens, false)
}

pub open spec fn records_emitted_spans(recs: Seq<RecordModel>) -> Seq<Seq<char>>
    decreases recs.len(),
{
    if recs.len() == 0 {
        Seq::empty()
    } else {
        records_emitted_spans(recs.drop_last()) + emitted_spans(recs.last())
    }
}

/// Each span on its own line: the spans concatenated, each terminated by a
/// single line break.
pub open spec fn cat_lines(ss: Seq<Seq<char>>) -> Seq<char>
    decreases ss.len(),
{
    if ss.len() == 0 {
        Seq::empty()
    } else {
        cat_lines(ss.drop_last()) + ss.last() + seq!['\n']
    }
}

/// What a record looks like in an output file.
pub open spec fn render_record_spec(r: RecordModel) -> Seq<char> {
    cat_lines(emitted_spans(r))
}

proof fn lemma_cat_lines_concat(a: Seq<Seq<char>>, b: Seq<Seq<char>>)
    ensures
        cat_lines(a + b) == cat_lines(a) + cat_lines(b),
    decreases b.len(),
{
    if b.len() == 0 {
        assert(a + b =~= a);
        assert(cat_lines(a) + cat_lines(b) =~= cat_lines(a));
    } else {
        lemma_cat_lines_concat(a, b.drop_last());
        assert((a + b).drop_last() =~= a + b.drop_last());
        assert((a + b).last() == b.last());
        assert(cat_lines(a) + (cat_lines(b.drop_last()) + b.last() + seq!['\n']) =~= (cat_lines(a)
            + cat_lines(b.drop_last())) + b.last() + seq!['\n']);
    }
}

impl Record {
    /// Renders the record for output: every comment token first, then every
    /// other non-whitespace token, each on its own line. Whitespace tokens
    /// are dropped.
    pub fn render(&self) -> (out: Vec<char>)
        ensures
            out@ == render_record_spec(self@),
    {
        let ghost ts = self@.tokens;
        let mut out: Vec<char> = Vec::new();
        proof {
            assert(ts.take(0) =~= Seq::<TokenModel>::empty());
            assert(out@ =~= cat_lines(part_spans(ts.take(0), true)));
        }
        let mut i: usize = 0;
        while i < self.tokens.len()
            invariant
                i <= self.tokens@.len(),
                ts == self@.tokens,
                out@ == cat_lines(part_spans(ts.take(i as int), true)),
            decreases self.tokens@.len() - i,
        {
            let t = &self.tokens[i];
            let ghost pre = out@;
            proof {
                assert(ts[i as int] == self.tokens@[i as int]@);
            }
            if matches!(t.tt, TokenType::Comment) {
                push_chars(&mut out, t.span.as_slice());
                out.push('\n');
                proof {
                    assert(out@ =~= pre + ts[i as int].span + seq!['\n']);
                }
            }
            proof {
                lemma_render_step(ts, i as int, pre, out@, true);
            }
            i += 1;
        }
        proof {
            assert(ts.take(ts.len() as int) =~= ts);
        }
        let mut i: usize = 0;
        while i < self.tokens.len()
            invariant
                i <= self.tokens@.len(),
                ts == self@.tokens,
                out@ == cat_lines(part_spans(ts, true)) + cat_lines(
                    part_spans(ts.take(i as int), false),
                ),
            decreases self.tokens@.len() - i,
        {
            let t = &self.tokens[i];
            let ghost pre = out@;
            proof {
                assert(ts[i as int] == self.tokens@[i as int]@);
            }
            if !matches!(t.tt, TokenType::Comment) && !matches!(t.tt, TokenType::Whitespace) {
                push_chars(&mut out, t.span.as_slice());
                out.push('\n');
                proof {
                    assert(out@ =~= pre + ts[i as int].span + seq!['\n']);
                }
            }
            proof {
                lemma_render_step_code(ts, i as int, pre, out@, cat_lines(part_spans(ts, true)));
            }
            i += 1;
        }
        proof {
            assert(ts.take(ts.len() as int) =~= ts);
            lemma_cat_lines_concat(part_spans(ts, true), part_spans(ts, false));
        }
        out
    }
}

proof fn lemma_render_step(ts: Seq<TokenModel>, i: int, pre: Seq<char>, post: Seq<char>, pass: bool)
    requires
        0 <= i < ts.len(),
        pre == cat_lines(part_spans(ts.take(i), pass)),
        post == if pass_emits(ts[i], pass) {
            pre + ts[i].span + seq!['\n']
        } else {
            pre
        },
    ensures
        post == cat_lines(part_spans(ts.take(i + 1), pass)),
{
    assert(ts.take(i + 1).drop_last() =~= ts.take(i));
    assert(ts.take(i + 1).last() == ts[i]);
    let p = part_spans(ts.take(i), pass);
    if pass_emits(ts[i], pass) {
        assert(part_spans(ts.take(i + 1), pass) == p + seq![ts[i].span]);
        assert((p + seq![ts[i].span]).drop_last() =~= p);
        assert((p + seq![ts[i].span]).last() == ts[i].span);
        assert(cat_lines(p + seq![ts[i].span]) == cat_lines(p) + ts[i].span + seq!['\n']);
        assert(post =~= cat_lines(p) + ts[i].span + seq!['\n']);
    } else {
        assert(part_spans(ts.take(i + 1), pass) =~= p);
    }
}

proof fn lemma_render_step_code(
    ts: Seq<TokenModel>,
    i: int,
    pre: Seq<char>,
    post: Seq<char>,
    base: Seq<char>,
)
    requires
        0 <= i < ts.len(),
        pre == base + cat_lines(part_spans(ts.take(i), false)),
        post == if pass_emits(ts[i], false) {
            pre + ts[i].span + seq!['\n']
        } else {
            pre
        },
    ensures
        post == base + cat_lines(part_spans(ts.take(i + 1), false)),
{
    assert(ts.take(i + 1).drop_last() =~= ts.take(i));
    assert(ts.take(i + 1).last() == ts[i]);
    let p = part_spans(ts.take(i), false);
    if pass_emits(ts[i], false) {
        assert(part_spans(ts.take(i + 1), false) == p + seq![ts[i].span]);
        assert((p + seq![ts[i].span]).drop_last() =~= p);
        assert((p + seq![ts[i].span]).last() == ts[i].span);
        assert(cat_lines(p + seq![ts[i].span]) == cat_lines(p) + ts[i].span + seq!['\n']);
        assert(post =~= base + (cat_lines(p) + ts[i].span + seq!['\n']));
        assert(base + (cat_lines(p) + ts[i].span + seq!['\n']) =~= (base + cat_lines(p)) + ts[i].span
            + seq!['\n']);
    } else {
        assert(part_spans(ts.take(i + 1), false) =~= p);
    }
}


proof fn lemma_ms_empty()
    ensures
        Seq::<Seq<char>>::empty().to_multiset() == Multiset::<Seq<char>>::empty(),
{
    broadcast use vstd::multiset::group_multiset_axioms;
    broadcast use vstd::seq_lib::group_to_multiset_ensures;

    Seq::<Seq<char>>::empty().to_multiset_ensures();
    vstd::multiset::lemma_multiset_empty_len(Seq::<Seq<char>>::empty().to_multiset());
    assert(Seq::<Seq<char>>::empty().to_multiset() =~= Multiset::<Seq<char>>::empty());
}

proof fn lemma_ms_singleton(x: Seq<char>)
    ensures
        seq![x].to_multiset() == Multiset::<Seq<char>>::empty().insert(x),
{
    broadcast use vstd::multiset::group_multiset_axioms;
    broadcast use vstd::seq_lib::group_to_multiset_ensures;

    lemma_ms_empty();
    assert(seq![x] =~= Seq::<Seq<char>>::empty().push(x));
    assert(Seq::<Seq<char>>::empty().push(x).to_multiset() =~= Seq::<
        Seq<char>,
    >::empty().to_multiset().insert(x));
}

proof fn lemma_part_spans_concat(a: Seq<TokenModel>, b: Seq<TokenModel>, pass: bool)
    ensures
        part_spans(a + b, pass) == part_spans(a, pass) + part_spans(b, pass),
    decreases b.len(),
{
    if b.len() == 0 {
        assert(a + b =~= a);
        assert(part_spans(a, pass) + part_spans(b, pass) =~= part_spans(a, pass));
    } else {
        lemma_part_spans_concat(a, b.drop_last(), pass);
        assert((a + b).drop_last() =~= a + b.drop_last());
        assert((a + b).last() == b.last());
        assert(part_spans(a, pass) + (part_spans(b.drop_last(), pass) + (if pass_emits(
            b.last(),
            pass,
        ) {
            seq![b.last().span]
        } else {
            Seq::empty()
        })) =~= (part_spans(a, pass) + part_spans(b.drop_last(), pass)) + (if pass_emits(
            b.last(),
            pass,
        ) {
            seq![b.last().span]
        } else {
            Seq::empty()
        }));
    }
}

proof fn lemma_parts_vs_sig(ts: Seq<TokenModel>)
    ensures
        part_spans(ts, true).to_multiset().add(part_spans(ts, false).to_multiset())
            == significant_spans(ts).to_multiset(),
    decreases ts.len(),
{
    broadcast use vstd::seq_lib::lemma_multiset_commutative;
    broadcast use vstd::multiset::group_multiset_axioms;

    if ts.len() == 0 {
        lemma_ms_empty();
        assert(part_spans(ts, true).to_multiset().add(part_spans(ts, false).to_multiset())
            =~= significant_spans(ts).to_multiset());
    } else {
        lemma_parts_vs_sig(ts.drop_last());
        let d = ts.drop_last();
        let t = ts.last();
        let ct = if pass_emits(t, true) {
            seq![t.span]
        } else {
            Seq::<Seq<char>>::empty()
        };
        let cf = if pass_emits(t, false) {
            seq![t.span]
        } else {
            Seq::<Seq<char>>::empty()
        };
        let cs = if t.tt != TokenType::Whitespace {
            seq![t.span]
        } else {
            Seq::<Seq<char>>::empty()
        };
        assert(part_spans(ts, true) == part_spans(d, true) + ct);
        assert(part_spans(ts, false) == part_spans(d, false) + cf);
        assert(significant_spans(ts) == significant_spans(d) + cs);
        assert((part_spans(d, true) + ct).to_multiset() == part_spans(d, true).to_multiset().add(
            ct.to_multiset(),
        ));
        assert((part_spans(d, false) + cf).to_multiset() == part_spans(d, false).to_multiset().add(
            cf.to_multiset(),
        ));
        assert((significant_spans(d) + cs).to_multiset() == significant_spans(d).to_multiset().add(
            cs.to_multiset(),
        ));
        lemma_ms_empty();
        lemma_ms_singleton(t.span);
        assert(ct.to_multiset().add(cf.to_multiset()) =~= cs.to_multiset());
        assert(part_spans(ts, true).to_multiset().add(part_spans(ts, false).to_multiset())
            =~= significant_spans(ts).to_multiset());
    }
}

proof fn lemma_records_emitted_ms(recs: Seq<RecordModel>)
    ensures
        records_emitted_spans(recs).to_multiset() == part_spans(
            cat_tokens(recs),
            true,
        ).to_multiset().add(part_spans(cat_tokens(recs), false).to_multiset()),
    decreases recs.len(),
{
    broadcast use vstd::seq_lib::lemma_multiset_commutative;
    broadcast use vstd::multiset::group_multiset_axioms;

    if recs.len() == 0 {
        lemma_ms_empty();
        assert(records_emitted_spans(recs).to_multiset() =~= part_spans(
            cat_tokens(recs),
            true,
        ).to_multiset().add(part_spans(cat_tokens(recs), false).to_multiset()));
    } else {
        lemma_records_emitted_ms(recs.drop_last());
        let d = recs.drop_last();
        let r = recs.last();
        lemma_part_spans_concat(cat_tokens(d), r.tokens, true);
        lemma_part_spans_concat(cat_tokens(d), r.tokens, false);
        assert(cat_tokens(recs) == cat_tokens(d) + r.tokens);
        assert(records_emitted_spans(recs) == records_emitted_spans(d) + emitted_spans(r));
        assert(records_emitted_spans(recs).to_multiset() == records_emitted_spans(
            d,
        ).to_multiset().add(emitted_spans(r).to_multiset()));
        assert(emitted_spans(r).to_multiset() == part_spans(r.tokens, true).to_multiset().add(
            part_spans(r.tokens, false).to_multiset(),
        ));
        assert(part_spans(cat_tokens(recs), true).to_multiset() == part_spans(
            cat_tokens(d),
            true,
        ).to_multiset().add(part_spans(r.tokens, true).to_multiset()));
        assert(part_spans(cat_tokens(recs), false).to_multiset() == part_spans(
            cat_tokens(d),
            false,
        ).to_multiset().add(part_spans(r.tokens, false).to_multiset()));
        assert(records_emitted_spans(recs).to_multiset() =~= part_spans(
            cat_tokens(recs),
            true,
        ).to_multiset().add(part_spans(cat_tokens(recs), false).to_multiset()));
    }
}

/// Round trip: the spans of the token stream concatenate back to the input
/// exactly; and the spans the records emit on output are, as a multiset,
/// exactly the significant (non-whitespace) spans of the input, whitespace
/// being always dropped on output.
pub proof fn lemma_round_trip(text: Seq<char>, toks: Seq<TokenModel>, recs: Seq<RecordModel>)
    requires
        crate::token::tokenize_spec(text) == Ok::<Seq<TokenModel>, int>(toks),
        group_spec(toks) == Ok::<Seq<RecordModel>, int>(recs),
    ensures
        crate::token::cat_spans(toks) == text,
        records_emitted_spans(recs).to_multiset() == significant_spans(toks).to_multiset(),
{
    crate::token::lemma_tokenize_round_trip(text, toks);
    lemma_group_partitions(toks, recs);
    lemma_records_emitted_ms(recs);
    lemma_parts_vs_sig(toks);
}

} // verus!
