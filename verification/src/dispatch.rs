//! The dedup/dispatch stage: the single consumer of the record channel. It
//! owns the process-wide seen-code set, computes for each incoming record
//! the residual pager codes not yet forwarded for that incident, inserts the
//! new pairs, and hands back the paging request to submit — or nothing, when
//! every code of the record was already paged.

use vstd::prelude::*;
use crate::config::{ParsedData, Ric, RicV};

verus! {

/// One (incident identifier, pager code) pair that was already forwarded.
struct SeenPair {
    einsatz: String,
    ric: String,
}

impl View for SeenPair {
    type V = (Seq<char>, Seq<char>);

    closed spec fn view(&self) -> (Seq<char>, Seq<char>) {
        (self.einsatz@, self.ric@)
    }
}

impl DeepView for SeenPair {
    type V = (Seq<char>, Seq<char>);

    closed spec fn deep_view(&self) -> (Seq<char>, Seq<char>) {
        self.view()
    }
}

/// The pair `(einsatz, ric)` is present in `s`.
pub open spec fn spec_seen(
    s: Seq<(Seq<char>, Seq<char>)>,
    einsatz: Seq<char>,
    ric: Seq<char>,
) -> bool {
    exists|i: int| 0 <= i < s.len() && #[trigger] s[i] == (einsatz, ric)
}

/// What processing one record does to the seen set `seen`: walking the
/// record's pager entries in order, an entry whose (incident, code) pair is
/// already present is dropped, and any other entry joins the residual while
/// its pair joins the set.
pub open spec fn spec_residual(
    seen: Seq<(Seq<char>, Seq<char>)>,
    einsatz: Seq<char>,
    rics: Seq<RicV>,
) -> (Seq<RicV>, Seq<(Seq<char>, Seq<char>)>)
    decreases rics.len(),
{
    if rics.len() == 0 {
        (Seq::empty(), seen)
    } else {
        let prior = spec_residual(seen, einsatz, rics.drop_last());
        let last = rics.last();
        if spec_seen(prior.1, einsatz, last.ric) {
            prior
        } else {
            (prior.0.push(last), prior.1.push((einsatz, last.ric)))
        }
    }
}

/// The paging request submitted to the alerting endpoint for one record:
/// the record's fields and only the surviving pager entries.
pub struct Submission {
    pub rics: Vec<Ric>,
    pub einsatznrlst: String,
    pub strasse: String,
    pub hausnummer: String,
    pub ort: String,
    pub ortsteil: String,
    pub objektname: String,
    pub koordinaten: String,
    pub einsatzstichwort: String,
    pub zusatzinfo: String,
}

/// The process-wide seen-code set: every (incident identifier, pager code)
/// pair forwarded so far. Grows monotonically; never evicted.
pub struct SeenCodes {
    entries: Vec<SeenPair>,
}

impl View for SeenCodes {
    type V = Seq<(Seq<char>, Seq<char>)>;

    closed spec fn view(&self) -> Seq<(Seq<char>, Seq<char>)> {
        self.entries.deep_view()
    }
}

impl SeenCodes {
    /// The empty set, as the dispatch stage starts with.
    pub fn new() -> (r: SeenCodes)
        ensures
            r@ == Seq::<(Seq<char>, Seq<char>)>::empty(),
    {
        let r = SeenCodes { entries: Vec::new() };
        proof {
            assert(r@ =~= Seq::<(Seq<char>, Seq<char>)>::empty());
        }
        r
    }

    /// Membership test for one (incident, code) pair.
    fn contains_pair(&self, einsatz: &String, ric: &String) -> (r: bool)
        ensures
            r == spec_seen(self@, einsatz@, ric@),
    {
        let mut i: usize = 0;
        while i < self.entries.len()
            invariant
                i <= self.entries@.len(),
                self@.len() == self.entries@.len(),
                forall|k: int| 0 <= k < i ==> #[trigger] self@[k] != (einsatz@, ric@),
            decreases self.entries@.len() - i,
        {
            if self.entries[i].einsatz == *einsatz && self.entries[i].ric == *ric {
                proof {
                    assert(self@[i as int] == (einsatz@, ric@));
                }
                return true;
            }
            proof {
                assert(self@[i as int] == (self.entries@[i as int].einsatz@,
                self.entries@[i as int].ric@));
            }
            i += 1;
        }
        false
    }

    /// Processes one record: drops the pager entries whose (incident, code)
    /// pair was already forwarded, marks the surviving pairs as forwarded,
    /// and returns the paging request for the survivors — `None` when no
    /// entry survives, in which case no request is to be made.
    pub fn process(&mut self, record: &ParsedData) -> (r: Option<Submission>)
        ensures
            ({
                let outcome = spec_residual(old(self)@, record@.einsatznrlst, record@.rics);
                &&& final(self)@ == outcome.1
                &&& match r {
                    Some(sub) => outcome.0.len() > 0 && sub@.rics == outcome.0
                        && sub@.einsatznrlst == record@.einsatznrlst && sub@.strasse
                        == record@.strasse && sub@.hausnummer == record@.hausnummer && sub@.ort
                        == record@.ort && sub@.ortsteil == record@.ortsteil && sub@.objektname
                        == record@.objektname && sub@.koordinaten == record@.koordinaten
                        && sub@.einsatzstichwort == record@.einsatzstichwort && sub@.zusatzinfo
                        == record@.zusatzinfo,
                    None => outcome.0.len() == 0,
                }
            }),
    {
        let mut residual: Vec<Ric> = Vec::new();
        let mut i: usize = 0;
        proof {
            assert(record@.rics.subrange(0, 0) =~= Seq::<RicV>::empty());
        }
        while i < record.rics.len()
            invariant
                i <= record.rics@.len(),
                record@.rics == record.rics.deep_view(),
                ({
                    let outcome = spec_residual(
                        old(self)@,
                        record@.einsatznrlst,
                        record@.rics.subrange(0, i as int),
                    );
                    residual.deep_view() == outcome.0 && self@ == outcome.1
                }),
            decreases record.rics@.len() - i,
        {
            proof {
                assert(record@.rics.subrange(0, i + 1).drop_last() =~= record@.rics.subrange(
                    0,
                    i as int,
                ));
                assert(record@.rics.subrange(0, i + 1).last() == record.rics@[i as int]@);
            }
            let entry = &record.rics[i];
            if !self.contains_pair(&record.einsatznrlst, &entry.ric) {
                residual.push(entry.duplicate());
                let pair = SeenPair {
                    einsatz: record.einsatznrlst.clone(),
                    ric: entry.ric.clone(),
                };
                self.entries.push(pair);
                proof {
                    assert(residual.deep_view() =~= spec_residual(
                        old(self)@,
                        record@.einsatznrlst,
                        record@.rics.subrange(0, i + 1),
                    ).0);
                    assert(self@ =~= spec_residual(
                        old(self)@,
                        record@.einsatznrlst,
                        record@.rics.subrange(0, i + 1),
                    ).1);
                }
            }
            i += 1;
        }
        proof {
            assert(record@.rics.subrange(0, record.rics@.len() as int) =~= record@.rics);
        }
        if residual.len() == 0 {
            None
        } else {
            Some(
                Submission {
                    rics: residual,
                    einsatznrlst: record.einsatznrlst.clone(),
                    strasse: record.strasse.clone(),
                    hausnummer: record.hausnummer.clone(),
                    ort: record.ort.clone(),
                    ortsteil: record.ortsteil.clone(),
                    objektname: record.objektname.clone(),
                    koordinaten: record.koordinaten.clone(),
                    einsatzstichwort: record.einsatzstichwort.clone(),
                    zusatzinfo: record.zusatzinfo.clone(),
                },
            )
        }
    }
}

/// The mathematical value of a [`Submission`].
pub struct SubmissionV {
    pub rics: Seq<RicV>,
    pub einsatznrlst: Seq<char>,
    pub strasse: Seq<char>,
    pub hausnummer: Seq<char>,
    pub ort: Seq<char>,
    pub ortsteil: Seq<char>,
    pub objektname: Seq<char>,
    pub koordinaten: Seq<char>,
    pub einsatzstichwort: Seq<char>,
    pub zusatzinfo: Seq<char>,
}

impl View for Submission {
    type V = SubmissionV;

    open spec fn view(&self) -> SubmissionV {
        SubmissionV {
            rics: self.rics.deep_view(),
            einsatznrlst: self.einsatznrlst@,
            strasse: self.strasse@,
            hausnummer: self.hausnummer@,
            ort: self.ort@,
            ortsteil: self.ortsteil@,
            objektname: self.objektname@,
            koordinaten: self.koordinaten@,
            einsatzstichwort: self.einsatzstichwort@,
            zusatzinfo: self.zusatzinfo@,
        }
    }
}

/// Some entry of `rics` carries the pager code `code`.
pub open spec fn spec_has_code(rics: Seq<RicV>, code: Seq<char>) -> bool {
    exists|k: int| 0 <= k < rics.len() && (#[trigger] rics[k]).ric == code
}

/// How many entries of `s` carry the pager code `code`.
pub open spec fn spec_count_code(s: Seq<RicV>, code: Seq<char>) -> nat
    decreases s.len(),
{
    if s.len() == 0 {
        0
    } else {
        spec_count_code(s.drop_last(), code) + if s.last().ric == code {
            1nat
        } else {
            0nat
        }
    }
}

proof fn lemma_seen_push(
    s: Seq<(Seq<char>, Seq<char>)>,
    p: (Seq<char>, Seq<char>),
    einsatz: Seq<char>,
    code: Seq<char>,
)
    ensures
        spec_seen(s.push(p), einsatz, code) == (spec_seen(s, einsatz, code) || p == (
        einsatz,
        code,
        )),
{
    if spec_seen(s, einsatz, code) {
        let i = choose|i: int| 0 <= i < s.len() && #[trigger] s[i] == (einsatz, code);
        assert(s.push(p)[i] == (einsatz, code));
    }
    if p == (einsatz, code) {
        assert(s.push(p)[s.len() as int] == (einsatz, code));
    }
    if spec_seen(s.push(p), einsatz, code) {
        let i = choose|i: int| 0 <= i < s.push(p).len() && #[trigger] s.push(p)[i] == (
        einsatz,
        code,
        );
        if i < s.len() {
            assert(s[i] == (einsatz, code));
        }
    }
}

proof fn lemma_count_push(s: Seq<RicV>, x: RicV, code: Seq<char>)
    ensures
        spec_count_code(s.push(x), code) == spec_count_code(s, code) + if x.ric == code {
            1nat
        } else {
            0nat
        },
{
    assert(s.push(x).drop_last() =~= s);
}

/// What one processed record leaves behind: its pager code `code` is in the
/// resulting set exactly when it was already seen or the record carries it,
/// and the residual pages it exactly once when it was new and carried, and
/// never otherwise.
pub proof fn lemma_residual_characterized(
    seen: Seq<(Seq<char>, Seq<char>)>,
    einsatz: Seq<char>,
    rics: Seq<RicV>,
    code: Seq<char>,
)
    ensures
        spec_seen(spec_residual(seen, einsatz, rics).1, einsatz, code) == (spec_seen(
            seen,
            einsatz,
            code,
        ) || spec_has_code(rics, code)),
        spec_count_code(spec_residual(seen, einsatz, rics).0, code) == if !spec_seen(
            seen,
            einsatz,
            code,
        ) && spec_has_code(rics, code) {
            1nat
        } else {
            0nat
        },
    decreases rics.len(),
{
    if rics.len() == 0 {
        assert(!spec_has_code(rics, code));
    } else {
        lemma_residual_characterized(seen, einsatz, rics.drop_last(), code);
        let prior = spec_residual(seen, einsatz, rics.drop_last());
        let last = rics.last();
        assert(spec_has_code(rics, code) == (spec_has_code(rics.drop_last(), code) || last.ric
            == code)) by {
            if spec_has_code(rics.drop_last(), code) {
                let k = choose|k: int|
                    0 <= k < rics.drop_last().len() && (#[trigger] rics.drop_last()[k]).ric
                        == code;
                assert(rics[k].ric == code);
            }
            if last.ric == code {
                assert(rics[rics.len() - 1].ric == code);
            }
            if spec_has_code(rics, code) {
                let k = choose|k: int| 0 <= k < rics.len() && (#[trigger] rics[k]).ric == code;
                if k < rics.len() - 1 {
                    assert(rics.drop_last()[k].ric == code);
                }
            }
        }
        if spec_seen(prior.1, einsatz, last.ric) {
        } else {
            lemma_seen_push(prior.1, (einsatz, last.ric), einsatz, code);
            lemma_count_push(prior.0, last, code);
        }
    }
}

/// The seen set grows monotonically: processing a record evicts nothing —
/// every pair present before is present after.
pub proof fn lemma_seen_monotonic(
    seen: Seq<(Seq<char>, Seq<char>)>,
    einsatz: Seq<char>,
    rics: Seq<RicV>,
    pair_einsatz: Seq<char>,
    pair_code: Seq<char>,
)
    requires
        spec_seen(seen, pair_einsatz, pair_code),
    ensures
        spec_seen(spec_residual(seen, einsatz, rics).1, pair_einsatz, pair_code),
    decreases rics.len(),
{
    if rics.len() > 0 {
        lemma_seen_monotonic(seen, einsatz, rics.drop_last(), pair_einsatz, pair_code);
        let prior = spec_residual(seen, einsatz, rics.drop_last());
        if !spec_seen(prior.1, einsatz, rics.last().ric) {
            lemma_seen_push(prior.1, (einsatz, rics.last().ric), pair_einsatz, pair_code);
        }
    }
}

/// Dedup idempotence: processing the same record twice leaves an empty
/// residual the second time — no pair it carries can be paged again.
pub proof fn lemma_dedup_idempotent(
    seen: Seq<(Seq<char>, Seq<char>)>,
    einsatz: Seq<char>,
    rics: Seq<RicV>,
)
    ensures
        spec_residual(spec_residual(seen, einsatz, rics).1, einsatz, rics).0 == Seq::<RicV>::empty(),
{
    let s1 = spec_residual(seen, einsatz, rics).1;
    assert forall|k: int| 0 <= k < rics.len() implies spec_seen(
        s1,
        einsatz,
        (#[trigger] rics[k]).ric,
    ) by {
        lemma_residual_characterized(seen, einsatz, rics, rics[k].ric);
        assert(spec_has_code(rics, rics[k].ric));
    }
    lemma_residual_empty_when_covered(s1, einsatz, rics);
}

/// When every pager code of `rics` is already seen for `einsatz`, processing
/// contributes nothing: empty residual, set unchanged.
proof fn lemma_residual_empty_when_covered(
    seen: Seq<(Seq<char>, Seq<char>)>,
    einsatz: Seq<char>,
    rics: Seq<RicV>,
)
    requires
        forall|k: int|
            0 <= k < rics.len() ==> spec_seen(seen, einsatz, (#[trigger] rics[k]).ric),
    ensures
        spec_residual(seen, einsatz, rics).0 == Seq::<RicV>::empty(),
        spec_residual(seen, einsatz, rics).1 == seen,
    decreases rics.len(),
{
    if rics.len() > 0 {
        assert forall|k: int| 0 <= k < rics.drop_last().len() implies spec_seen(
            seen,
            einsatz,
            (#[trigger] rics.drop_last()[k]).ric,
        ) by {
            assert(rics.drop_last()[k] == rics[k]);
        }
        lemma_residual_empty_when_covered(seen, einsatz, rics.drop_last());
        assert(rics[rics.len() - 1] == rics.last());
    }
}

/// Cross-site dedup: two records for the same incident that both carry the
/// pager code `code` — from whichever sites, in whichever order they reach
/// the dispatch stage — have that code paged exactly once across the two,
/// provided it was not paged for that incident before.
pub proof fn lemma_cross_site_once(
    seen: Seq<(Seq<char>, Seq<char>)>,
    einsatz: Seq<char>,
    first: Seq<RicV>,
    second: Seq<RicV>,
    code: Seq<char>,
)
    requires
        !spec_seen(seen, einsatz, code),
        spec_has_code(first, code),
        spec_has_code(second, code),
    ensures
        spec_count_code(spec_residual(seen, einsatz, first).0, code) == 1,
        spec_count_code(
            spec_residual(spec_residual(seen, einsatz, first).1, einsatz, second).0,
            code,
        ) == 0,
{
    lemma_residual_characterized(seen, einsatz, first, code);
    lemma_residual_characterized(spec_residual(seen, einsatz, first).1, einsatz, second, code);
}

} // verus!
