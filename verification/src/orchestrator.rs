//! The orchestrator's fan-in and verdicts. Backends run concurrently
//! and their outcomes arrive in nondeterministic order, each tagged
//! with the submission index of the backend that produced it; the
//! collector puts them back into submission order, so arrival order
//! never leaks into the report. The aggregate exit status and the
//! startup decision over the factories' construction results are
//! derived here too.

use crate::service::{Backend, CreateServiceResult, GetUsersError, GetUsersResult};
use vstd::pervasive::VecAdditionalExecFns;
use vstd::prelude::*;

verus! {

/// One backend's outcome: its flagged accounts, or a failure scoped to
/// that backend alone.
pub type AuditOutcome = Result<GetUsersResult, GetUsersError>;

/// Some arrival carries tag `i`.
pub open spec fn spec_has_tag(arrivals: Seq<(usize, AuditOutcome)>, i: int) -> bool {
    exists|k: int| 0 <= k < arrivals.len() && (#[trigger] arrivals[k]).0 == i
}

/// The arrivals cover the submitted backends exactly: every tag is in
/// range, no tag arrives twice, and every submitted backend heard back.
pub open spec fn spec_covers(arrivals: Seq<(usize, AuditOutcome)>, count: int) -> bool {
    &&& forall|k: int| 0 <= k < arrivals.len() ==> (#[trigger] arrivals[k]).0 < count
    &&& forall|k1: int, k2: int|
        0 <= k1 < k2 < arrivals.len() ==> (#[trigger] arrivals[k1]).0 != (
        #[trigger] arrivals[k2]).0
    &&& forall|i: int| 0 <= i < count ==> spec_has_tag(arrivals, i)
}

/// Collect concurrently produced outcomes into submission order. Each
/// arrival is one backend's outcome tagged with that backend's
/// submission index. Collection succeeds iff the arrivals cover every
/// submitted backend exactly once — each dispatched backend contributes
/// exactly one outcome and none loses its slot — and the i-th outcome
/// of the result is then the one tagged i, whatever order the backends
/// finished in.
#[verifier::loop_isolation(false)]
pub fn collect_outcomes(count: usize, arrivals: Vec<(usize, AuditOutcome)>) -> (r: Option<
    Vec<AuditOutcome>,
>)
    ensures
        r is Some <==> spec_covers(arrivals@, count as int),
        r matches Some(out) ==> {
            &&& out@.len() == count
            &&& forall|k: int|
                0 <= k < arrivals@.len() ==> out@[(#[trigger] arrivals@[k]).0 as int]
                    == arrivals@[k].1
        },
{
    let ghost orig = arrivals@;
    let mut arrivals = arrivals;
    let mut slots: Vec<Option<AuditOutcome>> = Vec::new();
    let mut c: usize = 0;
    while c < count
        invariant
            slots@.len() == c <= count,
            forall|i: int| 0 <= i < c ==> (#[trigger] slots@[i]) is None,
        decreases count - c,
    {
        slots.push(None);
        c += 1;
    }
    proof {
        assert(arrivals@ =~= orig.take(orig.len() as int));
    }
    while arrivals.len() > 0
        invariant
            slots@.len() == count,
            arrivals@.len() <= orig.len(),
            arrivals@ == orig.take(arrivals@.len() as int),
            forall|k: int|
                arrivals@.len() <= k < orig.len() ==> (#[trigger] orig[k]).0 < count
                    && slots@[orig[k].0 as int] == Some(orig[k].1),
            forall|i: int|
                0 <= i < count ==> ((#[trigger] slots@[i]) is Some <==> exists|k: int|
                    arrivals@.len() <= k < orig.len() && (#[trigger] orig[k]).0 == i),
            forall|k1: int, k2: int|
                arrivals@.len() <= k1 < k2 < orig.len() ==> (#[trigger] orig[k1]).0 != (
                #[trigger] orig[k2]).0,
        decreases arrivals@.len(),
    {
        let ghost m = arrivals@.len() as int;
        let pair = arrivals.pop().unwrap();
        proof {
            assert(orig.take(m)[m - 1] == orig[m - 1]);
            assert(pair == orig[m - 1]);
            assert(arrivals@ =~= orig.take(m - 1));
        }
        let (idx, outcome) = pair;
        if idx >= count {
            proof {
                assert((orig[m - 1]).0 >= count);
                assert(!spec_covers(orig, count as int));
            }
            return None;
        }
        if slots[idx].is_some() {
            proof {
                let k = choose|k: int| m <= k < orig.len() && (#[trigger] orig[k]).0 == idx as int;
                assert((orig[m - 1]).0 == (orig[k]).0 && m - 1 < k);
                assert(!spec_covers(orig, count as int));
            }
            return None;
        }
        slots.set(idx, Some(outcome));
        proof {
            assert forall|i: int|
                0 <= i < count implies ((#[trigger] slots@[i]) is Some <==> exists|k: int|
                m - 1 <= k < orig.len() && (#[trigger] orig[k]).0 == i) by {
                if i == idx as int {
                    assert((orig[m - 1]).0 == i);
                } else {
                    if slots@[i] is Some {
                        let k = choose|k: int|
                            m <= k < orig.len() && (#[trigger] orig[k]).0 == i;
                        assert(m - 1 <= k < orig.len() && (orig[k]).0 == i);
                    }
                    if exists|k: int| m - 1 <= k < orig.len() && (#[trigger] orig[k]).0 == i {
                        let k = choose|k: int|
                            m - 1 <= k < orig.len() && (#[trigger] orig[k]).0 == i;
                        assert(k != m - 1);
                        assert(m <= k < orig.len() && (orig[k]).0 == i);
                    }
                }
            }
        }
    }
    proof {
        assert(orig.take(0) =~= Seq::<(usize, AuditOutcome)>::empty());
    }
    let ghost filled = slots@;
    let mut out: Vec<AuditOutcome> = Vec::new();
    while slots.len() > 0
        invariant
            filled.len() == count,
            out@.len() + slots@.len() == count,
            slots@ == filled.skip(out@.len() as int),
            forall|i: int| 0 <= i < out@.len() ==> filled[i] == Some(#[trigger] out@[i]),
            forall|k: int|
                0 <= k < orig.len() ==> (#[trigger] orig[k]).0 < count && filled[orig[k].0 as int]
                    == Some(orig[k].1),
            forall|i: int|
                0 <= i < count ==> ((#[trigger] filled[i]) is Some <==> spec_has_tag(orig, i)),
            forall|k1: int, k2: int|
                0 <= k1 < k2 < orig.len() ==> (#[trigger] orig[k1]).0 != (#[trigger] orig[k2]).0,
        decreases slots@.len(),
    {
        let ghost p = out@.len() as int;
        let v = slots.remove(0);
        proof {
            assert(filled.skip(p)[0] == filled[p]);
            assert(filled.skip(p).remove(0) =~= filled.skip(p + 1));
        }
        match v {
            Some(o) => {
                out.push(o);
            },
            None => {
                proof {
                    assert(!spec_has_tag(orig, p));
                    assert(!spec_covers(orig, count as int));
                }
                return None;
            },
        }
    }
    proof {
        assert forall|i: int| 0 <= i < count implies spec_has_tag(orig, i) by {
            assert(filled[i] == Some(out@[i]));
        }
        assert(spec_covers(orig, count as int));
        assert forall|k: int|
            0 <= k < orig.len() implies out@[(#[trigger] orig[k]).0 as int] == orig[k].1 by {
            let i = (orig[k]).0 as int;
            assert(filled[i] == Some(out@[i]));
            assert(filled[i] == Some(orig[k].1));
        }
    }
    Some(out)
}

/// The collected report does not depend on arrival order: two arrival
/// sequences that carry the same tagged outcomes — however interleaved
/// — collect to the same ordered report.
pub proof fn lemma_collection_order_irrelevant(
    count: int,
    a1: Seq<(usize, AuditOutcome)>,
    a2: Seq<(usize, AuditOutcome)>,
    out1: Seq<AuditOutcome>,
    out2: Seq<AuditOutcome>,
)
    requires
        spec_covers(a1, count),
        spec_covers(a2, count),
        forall|k: int| 0 <= k < a2.len() ==> a1.contains(#[trigger] a2[k]),
        out1.len() == count,
        out2.len() == count,
        forall|k: int| 0 <= k < a1.len() ==> out1[(#[trigger] a1[k]).0 as int] == a1[k].1,
        forall|k: int| 0 <= k < a2.len() ==> out2[(#[trigger] a2[k]).0 as int] == a2[k].1,
    ensures
        out1 == out2,
{
    assert forall|i: int| 0 <= i < count implies out1[i] == out2[i] by {
        assert(spec_has_tag(a2, i));
        let k2 = choose|k: int| 0 <= k < a2.len() && (#[trigger] a2[k]).0 == i;
        assert(a1.contains(a2[k2]));
        let k1 = choose|k: int| 0 <= k < a1.len() && a1[k] == a2[k2];
        assert(out1[i] == a1[k1].1);
        assert(out2[i] == a2[k2].1);
    }
    assert(out1 =~= out2);
}

/// The run is alarming iff at least one outcome is a failure, or at
/// least one success flagged at least one account.
pub open spec fn spec_alarming(outcomes: Seq<AuditOutcome>) -> bool {
    exists|i: int|
        0 <= i < outcomes.len() && ((#[trigger] outcomes[i]) is Err || (outcomes[i] matches Ok(o)
            && o.users@.len() > 0))
}

/// The process exit status of a finished run: 2 where the run is
/// alarming, 0 where every backend succeeded with nothing flagged.
pub fn exit_status(outcomes: &Vec<AuditOutcome>) -> (r: i32)
    ensures
        r == 2 <==> spec_alarming(outcomes@),
        r == 0 <==> !spec_alarming(outcomes@),
{
    let mut found = false;
    let mut i: usize = 0;
    proof {
        assert(outcomes@.take(0) =~= Seq::<AuditOutcome>::empty());
    }
    while i < outcomes.len()
        invariant
            i <= outcomes@.len(),
            found == spec_alarming(outcomes@.take(i as int)),
        decreases outcomes@.len() - i,
    {
        let bad = match &outcomes[i] {
            Ok(o) => o.users.len() > 0,
            Err(_) => true,
        };
        proof {
            let prefix = outcomes@.take(i as int);
            let next = outcomes@.take(i as int + 1);
            assert(next[i as int] == outcomes@[i as int]);
            assert forall|w: int| 0 <= w < prefix.len() implies next[w] == prefix[w] by {}
            if bad {
                assert((next[i as int]) is Err || (next[i as int] matches Ok(o) && o.users@.len()
                    > 0));
                assert(spec_alarming(next));
            } else if spec_alarming(prefix) {
                let w = choose|w: int|
                    0 <= w < prefix.len() && ((#[trigger] prefix[w]) is Err || (prefix[w] matches
                    Ok(o) && o.users@.len() > 0));
                assert((next[w]) is Err || (next[w] matches Ok(o) && o.users@.len() > 0));
                assert(spec_alarming(next));
            } else {
                if spec_alarming(next) {
                    let w = choose|w: int|
                        0 <= w < next.len() && ((#[trigger] next[w]) is Err || (next[w] matches Ok(
                            o,
                        ) && o.users@.len() > 0));
                    if w < i as int {
                        assert((prefix[w]) is Err || (prefix[w] matches Ok(o) && o.users@.len()
                            > 0));
                        assert(spec_alarming(prefix));
                    }
                }
            }
        }
        found = found || bad;
        i += 1;
    }
    proof {
        assert(outcomes@.take(outcomes@.len() as int) =~= outcomes@);
    }
    if found {
        2
    } else {
        0
    }
}

/// Aggregate exit law: a run where every backend succeeded with an
/// empty list is not alarming (status 0); a run with any failure is
/// alarming (status 2); a run with any success that flagged at least
/// one account is alarming (status 2).
pub proof fn lemma_exit_contract(outcomes: Seq<AuditOutcome>)
    ensures
        (forall|i: int|
            0 <= i < outcomes.len() ==> ((#[trigger] outcomes[i]) matches Ok(o) && o.users@.len()
                == 0)) ==> !spec_alarming(outcomes),
        (exists|i: int| 0 <= i < outcomes.len() && (#[trigger] outcomes[i]) is Err)
            ==> spec_alarming(outcomes),
        (exists|i: int|
            0 <= i < outcomes.len() && ((#[trigger] outcomes[i]) matches Ok(o) && o.users@.len()
                > 0)) ==> spec_alarming(outcomes),
{
    if exists|i: int| 0 <= i < outcomes.len() && (#[trigger] outcomes[i]) is Err {
        let w = choose|i: int| 0 <= i < outcomes.len() && (#[trigger] outcomes[i]) is Err;
        assert(spec_alarming(outcomes));
    }
    if exists|i: int|
        0 <= i < outcomes.len() && ((#[trigger] outcomes[i]) matches Ok(o) && o.users@.len() > 0) {
        let w = choose|i: int|
            0 <= i < outcomes.len() && ((#[trigger] outcomes[i]) matches Ok(o) && o.users@.len()
                > 0);
        assert(spec_alarming(outcomes));
    }
}

/// A fatal startup fault: a misconfigured backend, or no backend
/// configured at all. Either aborts the run before any backend starts.
#[derive(Debug)]
pub enum StartupFault {
    /// Some factory reported missing required fields: these.
    MissingArguments(Vec<String>),
    /// No backend was configured for this run.
    NoServicesConfigured,
}

impl StartupFault {
    /// A startup fault exits with status 1, before any backend runs.
    pub fn exit_status(&self) -> (r: i32)
        ensures
            r == 1,
    {
        1
    }
}

/// The missing-fields report of the first misconfigured factory, if
/// any.
pub open spec fn spec_first_missing(results: Seq<CreateServiceResult>) -> Option<Vec<String>>
    decreases results.len(),
{
    if results.len() == 0 {
        None
    } else {
        match spec_first_missing(results.drop_last()) {
            Some(v) => Some(v),
            None => match results.last() {
                CreateServiceResult::MissingRequiredFields(v) => Some(v),
                _ => None,
            },
        }
    }
}

/// The ready backends among the construction results, in submission
/// order.
pub open spec fn spec_ready_backends(results: Seq<CreateServiceResult>) -> Seq<Backend>
    decreases results.len(),
{
    if results.len() == 0 {
        Seq::empty()
    } else {
        spec_ready_backends(results.drop_last()) + (match results.last() {
            CreateServiceResult::Ready(b) => seq![b],
            _ => Seq::<Backend>::empty(),
        })
    }
}

/// Decide the run from the factories' construction results: the first
/// missing-fields report aborts the whole run before any backend
/// starts; with none, the ready backends run in submission order; zero
/// ready backends is itself a startup fault (usage is shown).
#[verifier::loop_isolation(false)]
pub fn select_services(results: Vec<CreateServiceResult>) -> (r: Result<Vec<Backend>, StartupFault>)
    ensures
        spec_first_missing(results@) matches Some(v) ==> r == Err::<
            Vec<Backend>,
            StartupFault,
        >(StartupFault::MissingArguments(v)),
        (spec_first_missing(results@) is None && spec_ready_backends(results@).len() == 0) ==> r
            == Err::<Vec<Backend>, StartupFault>(StartupFault::NoServicesConfigured),
        (spec_first_missing(results@) is None && spec_ready_backends(results@).len() > 0) ==> (
        r matches Ok(services) && services@ == spec_ready_backends(results@)),
{
    let ghost orig = results@;
    let mut results = results;
    let total = results.len();
    let mut services: Vec<Backend> = Vec::new();
    let mut j: usize = 0;
    proof {
        assert(orig.len() == total);
        assert(orig.take(0) =~= Seq::<CreateServiceResult>::empty());
    }
    while results.len() > 0
        invariant
            j + results@.len() == orig.len(),
            results@ == orig.skip(j as int),
            spec_first_missing(orig.take(j as int)) is None,
            services@ == spec_ready_backends(orig.take(j as int)),
        decreases results@.len(),
    {
        let c = results.remove(0);
        proof {
            assert(orig.skip(j as int)[0] == orig[j as int]);
            assert(c == orig[j as int]);
            assert(orig.skip(j as int).remove(0) =~= orig.skip(j as int + 1));
            assert(orig.take(j as int + 1).drop_last() =~= orig.take(j as int));
            assert(orig.take(j as int + 1).last() == orig[j as int]);
        }
        match c {
            CreateServiceResult::Ready(b) => {
                services.push(b);
            },
            CreateServiceResult::MissingRequiredFields(v) => {
                proof {
                    lemma_first_missing_stable(orig, j as int + 1);
                }
                return Err(StartupFault::MissingArguments(v));
            },
            CreateServiceResult::NotConfigured => {},
        }
        j += 1;
    }
    proof {
        assert(orig.take(orig.len() as int) =~= orig);
    }
    if services.is_empty() {
        Err(StartupFault::NoServicesConfigured)
    } else {
        Ok(services)
    }
}

/// Once a prefix has a missing-fields report, later results do not
/// change which report is first.
proof fn lemma_first_missing_stable(results: Seq<CreateServiceResult>, m: int)
    requires
        0 <= m <= results.len(),
        spec_first_missing(results.take(m)) is Some,
    ensures
        spec_first_missing(results) == spec_first_missing(results.take(m)),
    decreases results.len() - m,
{
    if m < results.len() {
        assert(results.take(m + 1).drop_last() =~= results.take(m));
        lemma_first_missing_stable(results, m + 1);
    } else {
        assert(results.take(m) =~= results);
    }
}

} // verus!
