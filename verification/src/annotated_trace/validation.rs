//! The checks on a trace.

use vstd::prelude::*;

use super::{annotations_view, AnnotatedTrace, AnnotatedTraceEvent, AnnotatedTracePatch, Annotation};
use crate::config::TracerConfig;
use crate::event::TraceEvent;
use crate::validator::{
    codes, codes_in_order, responds, EventPatches, Validator, ValidatorCode,
};
use std::collections::BTreeMap;

verus! {

broadcast use vstd::std_specs::btree::group_btree_axioms;

/// The findings on an event, with what one more check found.
pub open spec fn with_answer(
    annotations: Map<usize, Seq<Annotation>>,
    code: ValidatorCode,
    answer: Map<usize, Vec<AnnotatedTracePatch>>,
) -> Map<usize, Seq<Annotation>> {
    Map::new(
        |i: usize| annotations.contains_key(i) || answer.contains_key(i),
        |i: usize|
            if answer.contains_key(i) {
                (if annotations.contains_key(i) {
                    annotations[i]
                } else {
                    Seq::empty()
                }).push(Annotation { code, patches: answer[i] })
            } else {
                annotations[i]
            },
    )
}

/// The findings on an event, given what the checks found, one after the other.
pub open spec fn findings(codes: Seq<ValidatorCode>, answers: Seq<EventPatches>) -> Map<
    usize,
    Seq<Annotation>,
>
    decreases answers.len(),
{
    if answers.len() == 0 {
        Map::empty()
    } else {
        with_answer(
            findings(codes, answers.drop_last()),
            codes[answers.len() - 1],
            answers.last()@,
        )
    }
}

/// The time of the event after a place.
pub open spec fn next_event_ts(events: Seq<AnnotatedTraceEvent>, i: int) -> Option<i64> {
    if i + 1 < events.len() {
        Some(events[i + 1].data.ts)
    } else {
        None
    }
}

/// The first checks, in the order of their codes, gave these answers on an event.
pub open spec fn event_checked<V: Validator>(
    validators: Map<ValidatorCode, V>,
    codes: Seq<ValidatorCode>,
    config: TracerConfig,
    event: TraceEvent,
    next: Option<i64>,
    answers: Seq<EventPatches>,
) -> bool {
    &&& answers.len() <= codes.len()
    &&& forall|j: int|
        0 <= j < answers.len() ==> responds(
            validators[codes[j]],
            event,
            next,
            config,
            Ok(#[trigger] answers[j]),
        )
}

/// The check behind those that answered failed on the event.
pub open spec fn check_failed<V: Validator>(
    validators: Map<ValidatorCode, V>,
    codes: Seq<ValidatorCode>,
    config: TracerConfig,
    event: TraceEvent,
    next: Option<i64>,
    answers: Seq<EventPatches>,
    err: V::Error,
) -> bool {
    &&& answers.len() < codes.len()
    &&& responds(validators[codes[answers.len() as int]], event, next, config, Err(err))
}

/// The checks ran over the events, event by event and on each in the order of the codes, and gave
/// the answers in `log`, up to the end or to the first failure. What they found on an event stands
/// there in place of what was found before; the events behind a failure are as they were.
pub open spec fn validation_ran<V: Validator>(
    validators: Map<ValidatorCode, V>,
    codes: Seq<ValidatorCode>,
    config: TracerConfig,
    before: Seq<AnnotatedTraceEvent>,
    after: Seq<AnnotatedTraceEvent>,
    log: Seq<Seq<EventPatches>>,
    failure: Option<V::Error>,
) -> bool {
    &&& codes_in_order(validators, codes)
    &&& log.len() <= before.len()
    &&& forall|i: int|
        0 <= i < log.len() ==> event_checked(
            validators,
            codes,
            config,
            before[i].data,
            next_event_ts(before, i),
            #[trigger] log[i],
        )
    &&& match failure {
        None => {
            &&& log.len() == before.len()
            &&& forall|i: int| 0 <= i < log.len() ==> (#[trigger] log[i]).len() == codes.len()
        },
        Some(err) => {
            &&& log.len() > 0
            &&& forall|i: int| 0 <= i < log.len() - 1 ==> (#[trigger] log[i]).len() == codes.len()
            &&& check_failed(
                validators,
                codes,
                config,
                before[log.len() - 1].data,
                next_event_ts(before, log.len() - 1),
                log.last(),
                err,
            )
        },
    }
    &&& after.len() == before.len()
    &&& forall|i: int| 0 <= i < after.len() ==> (#[trigger] after[i]).data == before[i].data
    &&& forall|i: int|
        0 <= i < after.len() ==> (#[trigger] after[i])@.annotations == if i < log.len() {
            findings(codes, log[i])
        } else {
            before[i]@.annotations
        }
}

/// The failure that a result stands for, if it is one.
pub open spec fn failure_of<T, E>(res: Result<T, E>) -> Option<E> {
    match res {
        Ok(_) => None,
        Err(err) => Some(err),
    }
}

/// How many objects a check found fault with, over all events.
pub open spec fn total(log: Seq<Seq<EventPatches>>, j: int) -> nat
    decreases log.len(),
{
    if log.len() == 0 {
        0
    } else {
        total(log.drop_last(), j) + log.last()[j]@.len()
    }
}

/// The summary gives, for each check that ran, how many objects it found fault with.
pub open spec fn counted(
    summary: Map<ValidatorCode, u128>,
    codes: Seq<ValidatorCode>,
    log: Seq<Seq<EventPatches>>,
) -> bool {
    &&& forall|code: ValidatorCode| #[trigger]
        summary.contains_key(code) <==> log.len() > 0 && codes.contains(code)
    &&& forall|j: int|
        log.len() > 0 && 0 <= j < codes.len() ==> summary[#[trigger] codes[j]] == total(log, j)
}

/// The keys of a map, each once.
fn keys(patches: &EventPatches) -> (res: Vec<usize>)
    ensures
        res@.no_duplicates(),
        forall|i: usize| #[trigger] patches@.contains_key(i) <==> res@.contains(i),
{
    let mut res: Vec<usize> = Vec::new();
    let pairs = patches.iter();
    let ghost all = vstd::std_specs::iter::IteratorSpec::remaining(&pairs);
    for pair in iter: pairs
        invariant
            iter.seq() == all,
            res.len() == iter.index(),
            forall|i: int| 0 <= i < res.len() ==> res[i] == *all[i].0,
    {
        res.push(*pair.0);
    }
    proof {
        assert forall|i: int, j: int| 0 <= i < res.len() && 0 <= j < res.len() && i != j implies res@[i]
            != res@[j] by {
            assert(patches@[*all[i].0] == *all[i].1);
            assert(patches@[*all[j].0] == *all[j].1);
            assert(all[i] != all[j]);
        }
        assert forall|i: usize| #[trigger] patches@.contains_key(i) implies res@.contains(i) by {
            assert(all.contains((&i, &patches@[i])));
            let k = choose|k: int| 0 <= k < all.len() && all[k] == (&i, &patches@[i]);
            assert(res@[k] == i);
        }
        assert forall|i: usize| res@.contains(i) implies #[trigger] patches@.contains_key(i) by {
            let k = choose|k: int| 0 <= k < res.len() && res@[k] == i;
            assert(patches@.contains_key(*all[k].0));
        }
    }
    res
}

/// Notes what a check found on an event.
fn record(annotations: &mut BTreeMap<usize, Vec<Annotation>>, code: ValidatorCode, answer: EventPatches)
    ensures
        annotations_view(*final(annotations)) == with_answer(
            annotations_view(*old(annotations)),
            code,
            answer@,
        ),
{
    let ghost before = annotations_view(*annotations);
    let ghost found = answer@;
    let objects = keys(&answer);
    let mut answer = answer;
    let mut k: usize = 0;
    assert(annotations_view(*annotations) =~= with_answer(
        before,
        code,
        found.restrict(objects@.take(0).to_set()),
    ));
    while k < objects.len()
        invariant
            k <= objects.len(),
            objects@.no_duplicates(),
            forall|i: usize| #[trigger] found.contains_key(i) <==> objects@.contains(i),
            forall|i: usize| #[trigger]
                answer@.contains_key(i) <==> found.contains_key(i) && !objects@.take(
                    k as int,
                ).contains(i),
            forall|i: usize| #[trigger] answer@.contains_key(i) ==> answer@[i] == found[i],
            annotations_view(*annotations) == with_answer(
                before,
                code,
                found.restrict(objects@.take(k as int).to_set()),
            ),
        decreases objects.len() - k,
    {
        let object: usize = objects[k];
        let ghost earlier = objects@.take(k as int);
        let ghost later = objects@.take(k + 1);
        let ghost answer_before = answer@;
        let ghost view_before = annotations_view(*annotations);
        proof {
            assert(later =~= earlier.push(object));
            assert(!earlier.contains(object)) by {
                if earlier.contains(object) {
                    let j = choose|j: int| 0 <= j < earlier.len() && earlier[j] == object;
                    assert(objects@[j] == objects@[k as int]);
                }
            }
            assert(objects@.contains(object));
            assert(answer@.contains_key(object));
            assert forall|i: usize| later.contains(i) <==> earlier.contains(i) || i == object by {
                if earlier.contains(i) {
                    let j = choose|j: int| 0 <= j < earlier.len() && earlier[j] == i;
                    assert(later[j] == i);
                }
                if i == object {
                    assert(later[k as int] == i);
                }
            }
        }
        let ghost map_before = annotations@;
        let patches = match answer.remove(&object) {
            Some(patches) => patches,
            None => Vec::new(),
        };
        assert(patches == found[object]);
        let mut list = match annotations.remove(&object) {
            Some(list) => list,
            None => Vec::new(),
        };
        let ghost list_before = list@;
        list.push(Annotation { code, patches });
        annotations.insert(object, list);
        proof {
            let goal = with_answer(before, code, found.restrict(later.to_set()));
            assert(annotations@ =~= map_before.insert(object, list));
            assert(annotations_view(*annotations) =~= view_before.insert(object, list@));
            assert(view_before.contains_key(object) <==> before.contains_key(object));
            assert(view_before.contains_key(object) <==> map_before.contains_key(object));
            if before.contains_key(object) {
                assert(list_before == map_before[object]@);
                assert(view_before[object] == map_before[object]@);
                assert(view_before[object] == before[object]);
            }
            assert(list_before == if before.contains_key(object) {
                before[object]
            } else {
                Seq::empty()
            });
            assert(annotations_view(*annotations) =~= goal);
        }
        k = k + 1;
    }
    proof {
        assert(objects@.take(k as int) =~= objects@);
        assert(found.restrict(objects@.to_set()) =~= found);
    }
}

/// What the checks made of an event: the findings, how many objects each check found fault with, and
/// the failure that ended the checks, if any.
struct EventReport<E> {
    annotations: BTreeMap<usize, Vec<Annotation>>,
    counts: Vec<usize>,
    failure: Option<E>,
}

/// The report says what the checks answered.
spec fn reports<V: Validator>(
    report: EventReport<V::Error>,
    validators: Map<ValidatorCode, V>,
    codes: Seq<ValidatorCode>,
    config: TracerConfig,
    event: TraceEvent,
    next: Option<i64>,
    answers: Seq<EventPatches>,
) -> bool {
    &&& event_checked(validators, codes, config, event, next, answers)
    &&& annotations_view(report.annotations) == findings(codes, answers)
    &&& report.counts.len() == answers.len()
    &&& forall|j: int| 0 <= j < answers.len() ==> report.counts[j] == (#[trigger] answers[j])@.len()
    &&& match report.failure {
        None => answers.len() == codes.len(),
        Some(err) => check_failed(validators, codes, config, event, next, answers, err),
    }
}

/// Runs the checks on one event.
fn check_event<V: Validator>(
    validators: &BTreeMap<ValidatorCode, V>,
    codes: &Vec<ValidatorCode>,
    config: &TracerConfig,
    event: &TraceEvent,
    next: Option<i64>,
) -> (res: EventReport<V::Error>)
    requires
        codes_in_order(validators@, codes@),
    ensures
        exists|answers: Seq<EventPatches>| #[trigger]
            reports(res, validators@, codes@, *config, *event, next, answers),
{
    let mut annotations: BTreeMap<usize, Vec<Annotation>> = BTreeMap::new();
    let mut counts: Vec<usize> = Vec::new();
    let ghost mut answers: Seq<EventPatches> = Seq::empty();
    assert(annotations_view(annotations) =~= findings(codes@, answers));
    let mut j: usize = 0;
    while j < codes.len()
        invariant
            j <= codes.len(),
            codes_in_order(validators@, codes@),
            answers.len() == j,
            event_checked(validators@, codes@, *config, *event, next, answers),
            annotations_view(annotations) == findings(codes@, answers),
            counts.len() == j,
            forall|k: int| 0 <= k < j ==> counts[k] == (#[trigger] answers[k])@.len(),
        decreases codes.len() - j,
    {
        let code: ValidatorCode = codes[j];
        assert(codes@.contains(code));
        assert(validators@.contains_key(code));
        match validators.get(&code) {
            Some(validator) => {
                match validator.check_next_event((event, next), config) {
                    Ok(answer) => {
                        let ghost longer = answers.push(answer);
                        counts.push(answer.len());
                        record(&mut annotations, code, answer);
                        proof {
                            assert(longer.drop_last() =~= answers);
                            assert forall|k: int| 0 <= k < longer.len() implies responds(
                                validators@[codes@[k]],
                                *event,
                                next,
                                *config,
                                Ok(#[trigger] longer[k]),
                            ) by {
                                if k < j {
                                    assert(longer[k] == answers[k]);
                                }
                            }
                            assert forall|k: int| 0 <= k < longer.len() implies counts[k] == (
                            #[trigger] longer[k])@.len() by {
                                if k < j {
                                    assert(longer[k] == answers[k]);
                                }
                            }
                            answers = longer;
                        }
                    },
                    Err(err) => {
                        let report = EventReport { annotations, counts, failure: Some(err) };
                        assert(reports(
                            report,
                            validators@,
                            codes@,
                            *config,
                            *event,
                            next,
                            answers,
                        ));
                        return report;
                    },
                }
            },
            None => {
                assert(false);
            },
        }
        j = j + 1;
    }
    let report = EventReport { annotations, counts, failure: None };
    assert(reports(report, validators@, codes@, *config, *event, next, answers));
    report
}

/// Adds what each check counted on an event to the summary.
fn add_counts(
    summary: &mut BTreeMap<ValidatorCode, u128>,
    codes: &Vec<ValidatorCode>,
    counts: &Vec<usize>,
    Ghost(log): Ghost<Seq<Seq<EventPatches>>>,
    Ghost(answers): Ghost<Seq<EventPatches>>,
)
    requires
        counted(old(summary)@, codes@, log),
        log.len() < usize::MAX,
        forall|i: int, j: int| 0 <= i < j < codes.len() ==> codes[i] < codes[j],
        counts.len() == codes.len(),
        answers.len() == codes.len(),
        forall|j: int| 0 <= j < answers.len() ==> counts[j] == (#[trigger] answers[j])@.len(),
        forall|j: int| 0 <= j < codes.len() ==> #[trigger] total(log, j) <= log.len() * usize::MAX,
    ensures
        counted(final(summary)@, codes@, log.push(answers)),
        forall|j: int|
            0 <= j < codes.len() ==> #[trigger] total(log.push(answers), j) <= (log.len() + 1)
                * usize::MAX,
{
    let ghost longer = log.push(answers);
    let ghost before = summary@;
    assert(longer.drop_last() =~= log);
    assert forall|j: int| 0 <= j < codes.len() implies #[trigger] total(longer, j) == total(log, j)
        + counts[j] by {
        assert(counts[j] == answers[j]@.len());
    }
    assert(log.len() * usize::MAX + usize::MAX == (log.len() + 1) * usize::MAX) by (nonlinear_arith);
    assert((log.len() + 1) * usize::MAX <= u128::MAX) by (nonlinear_arith)
        requires
            log.len() < usize::MAX,
    ;
    let mut j: usize = 0;
    while j < codes.len()
        invariant
            j <= codes.len(),
            counts.len() == codes.len(),
            counted(before, codes@, log),
            forall|i: int, k: int| 0 <= i < k < codes.len() ==> codes[i] < codes[k],
            forall|k: int|
                0 <= k < codes.len() ==> #[trigger] total(longer, k) == total(log, k) + counts[k],
            forall|k: int|
                0 <= k < codes.len() ==> #[trigger] total(log, k) <= log.len() * usize::MAX,
            log.len() * usize::MAX + usize::MAX <= u128::MAX,
            longer.len() > 0,
            forall|code: ValidatorCode| #[trigger]
                summary@.contains_key(code) <==> before.contains_key(code) || codes@.take(
                    j as int,
                ).contains(code),
            forall|k: int| 0 <= k < j ==> summary@[#[trigger] codes[k]] == total(longer, k),
            forall|k: int|
                j <= k < codes.len() && log.len() > 0 ==> summary@[#[trigger] codes[k]] == total(
                    log,
                    k,
                ),
        decreases codes.len() - j,
    {
        let code: ValidatorCode = codes[j];
        let ghost earlier = codes@.take(j as int);
        let ghost later = codes@.take(j + 1);
        proof {
            assert(codes@.contains(code));
            assert(later =~= earlier.push(code));
            assert forall|c: ValidatorCode| later.contains(c) <==> earlier.contains(c) || c == code by {
                if earlier.contains(c) {
                    let k = choose|k: int| 0 <= k < earlier.len() && earlier[k] == c;
                    assert(later[k] == c);
                }
                if c == code {
                    assert(later[j as int] == c);
                }
            }
            if earlier.contains(code) {
                let k = choose|k: int| 0 <= k < earlier.len() && earlier[k] == code;
                assert(codes[k] == code);
            }
            assert(total(longer, j as int) == total(log, j as int) + counts[j as int]);
        }
        let sum: u128 = match summary.get(&code) {
            Some(sum) => *sum,
            None => 0,
        };
        proof {
            if log.len() == 0 {
                assert(total(log, j as int) == 0);
                assert(!before.contains_key(code));
            }
            assert(sum == total(log, j as int));
        }
        let ghost previous = summary@;
        summary.insert(code, sum + counts[j] as u128);
        assert(summary@ =~= previous.insert(code, (sum + counts[j as int]) as u128));
        j = j + 1;
    }
    proof {
        assert(codes@.take(j as int) =~= codes@);
        assert forall|code: ValidatorCode| #[trigger] summary@.contains_key(code) implies codes@.contains(
            code,
        ) by {}
    }
}

impl AnnotatedTrace {
    /// Runs the checks over the events, with all changes, and notes on each event what they found.
    /// Gives for each check that ran how many objects it found fault with, or the first failure of a
    /// check.
    pub fn run_validators<V: Validator>(&mut self, validators: &BTreeMap<ValidatorCode, V>) -> (res:
        Result<BTreeMap<ValidatorCode, u128>, V::Error>)
        ensures
            final(self).source() == old(self).source(),
            final(self).read() == old(self).read(),
            final(self).changes() == old(self).changes(),
            exists|codes: Seq<ValidatorCode>, log: Seq<Seq<EventPatches>>|
                {
                    &&& #[trigger] validation_ran(
                        validators@,
                        codes,
                        old(self).read().config,
                        old(self).annotated(),
                        final(self).annotated(),
                        log,
                        failure_of(res),
                    )
                    &&& res is Ok ==> counted(res->Ok_0@, codes, log)
                },
    {
        let codes = codes(validators);
        let mut summary: BTreeMap<ValidatorCode, u128> = BTreeMap::new();
        let ghost before = self.events@;
        let ghost config = self.base.config;
        let ghost mut log: Seq<Seq<EventPatches>> = Seq::empty();
        let mut i: usize = 0;
        while i < self.events.len()
            invariant
                i <= self.events.len(),
                self.path == old(self).path,
                self.base == old(self).base,
                self.patches == old(self).patches,
                config == self.base.config,
                before == old(self).events@,
                codes_in_order(validators@, codes@),
                self.events.len() == before.len(),
                log.len() == i,
                counted(summary@, codes@, log),
                forall|j: int|
                    0 <= j < codes.len() ==> #[trigger] total(log, j) <= log.len() * usize::MAX,
                forall|k: int| 0 <= k < i ==> (#[trigger] log[k]).len() == codes.len(),
                forall|k: int|
                    0 <= k < i ==> event_checked(
                        validators@,
                        codes@,
                        config,
                        before[k].data,
                        next_event_ts(before, k),
                        #[trigger] log[k],
                    ),
                forall|k: int|
                    0 <= k < before.len() ==> (#[trigger] self.events@[k]).data == before[k].data,
                forall|k: int|
                    0 <= k < before.len() ==> (#[trigger] self.events@[k])@.annotations == if k < i {
                        findings(codes@, log[k])
                    } else {
                        before[k]@.annotations
                    },
            decreases self.events.len() - i,
        {
            let ghost current = self.events@;
            let next: Option<i64> = if i + 1 < self.events.len() {
                Some(self.events[i + 1].data.ts)
            } else {
                None
            };
            assert(current[i as int].data == before[i as int].data);
            assert(i + 1 < before.len() ==> current[i + 1].data == before[i + 1].data);
            assert(next == next_event_ts(before, i as int));
            let report = check_event(
                validators,
                &codes,
                &self.base.config,
                &self.events[i].data,
                next,
            );
            let ghost answers = choose|answers: Seq<EventPatches>| #[trigger]
                reports(
                    report,
                    validators@,
                    codes@,
                    config,
                    before[i as int].data,
                    next,
                    answers,
                );
            let ghost longer = log.push(answers);
            let EventReport { annotations, counts, failure } = report;
            self.events[i].annotations = annotations;
            proof {
                assert(self.events@[i as int]@.annotations == findings(codes@, answers));
                assert(longer[i as int] == answers);
                assert forall|k: int| 0 <= k < i implies log[k] == #[trigger] longer[k] by {}
                assert forall|k: int| 0 <= k < before.len() implies (
                #[trigger] self.events@[k])@.annotations == if k < i + 1 {
                    findings(codes@, longer[k])
                } else {
                    before[k]@.annotations
                } by {
                    if k != i {
                        assert(self.events@[k] == current[k]);
                    }
                }
                assert forall|k: int| 0 <= k < before.len() implies (
                #[trigger] self.events@[k]).data == before[k].data by {
                    if k != i {
                        assert(self.events@[k] == current[k]);
                    }
                }
            }
            match failure {
                Some(err) => {
                    let res = Err(err);
                    assert(validation_ran(
                        validators@,
                        codes@,
                        old(self).read().config,
                        old(self).annotated(),
                        self.annotated(),
                        longer,
                        failure_of(res),
                    ));
                    return res;
                },
                None => {},
            }
            add_counts(&mut summary, &codes, &counts, Ghost(log), Ghost(answers));
            proof {
                log = longer;
            }
            i = i + 1;
        }
        let res = Ok(summary);
        assert(validation_ran(
            validators@,
            codes@,
            old(self).read().config,
            old(self).annotated(),
            self.annotated(),
            log,
            failure_of(res),
        ));
        res
    }

    /// Runs the checks over the events, with all changes, and notes on each event what they found.
    /// Gives the first failure of a check.
    pub fn validate<V: Validator>(&mut self, validators: &BTreeMap<ValidatorCode, V>) -> (res: Result<
        (),
        V::Error,
    >)
        ensures
            final(self).source() == old(self).source(),
            final(self).read() == old(self).read(),
            final(self).changes() == old(self).changes(),
            exists|codes: Seq<ValidatorCode>, log: Seq<Seq<EventPatches>>| #[trigger]
                validation_ran(
                    validators@,
                    codes,
                    old(self).read().config,
                    old(self).annotated(),
                    final(self).annotated(),
                    log,
                    failure_of(res),
                ),
    {
        match self.run_validators(validators) {
            Ok(_) => Ok(()),
            Err(err) => Err(err),
        }
    }
}

} // verus!
