//! Checks on the events of a trace.

use vstd::prelude::*;

use crate::annotated_trace::AnnotatedTracePatch;
use crate::config::TracerConfig;
use crate::event::TraceEvent;
use std::collections::BTreeMap;
use vstd::std_specs::btree::increasing_seq;
use vstd::std_specs::cmp::OrdSpec;
use vstd::std_specs::iter::IteratorSpec;

verus! {

/// What identifies a check.
pub type ValidatorCode = u64;

/// The objects of an event that fail a check, each with the patches that would mend it, the
/// recommended one first. The objects are counted as in
/// [`TraceEventView::objects`](crate::event::TraceEventView::objects).
pub type EventPatches = BTreeMap<usize, Vec<AnnotatedTracePatch>>;

/// A check. It sees the events of a trace one after the other, each with the time of the next.
pub trait Validator {
    type Error;

    /// Checks the next event.
    fn check_next_event(
        &self,
        event: (&TraceEvent, Option<i64>),
        config: &TracerConfig,
    ) -> Result<EventPatches, Self::Error>;
}

/// The check answers so when it is shown the event.
pub open spec fn responds<V: Validator>(
    validator: V,
    event: TraceEvent,
    next: Option<i64>,
    config: TracerConfig,
    answer: Result<EventPatches, V::Error>,
) -> bool {
    call_ensures(V::check_next_event, (&validator, (&event, next), &config), answer)
}

/// The codes of the checks, in ascending order.
pub open spec fn codes_in_order<V>(validators: Map<ValidatorCode, V>, codes: Seq<ValidatorCode>) -> bool {
    &&& forall|i: int, j: int| 0 <= i < j < codes.len() ==> codes[i] < codes[j]
    &&& forall|code: ValidatorCode| #[trigger] validators.contains_key(code) <==> codes.contains(code)
}

/// The codes of the checks, in ascending order.
pub(crate) fn codes<V>(validators: &BTreeMap<ValidatorCode, V>) -> (res: Vec<ValidatorCode>)
    ensures
        codes_in_order(validators@, res@),
{
    broadcast use vstd::std_specs::btree::group_btree_axioms;

    let mut res: Vec<ValidatorCode> = Vec::new();
    let pairs = validators.iter();
    let ghost all = IteratorSpec::remaining(&pairs);
    assert(increasing_seq(all.map_values(|pair: (&ValidatorCode, &V)| *pair.0)));
    for pair in iter: pairs
        invariant
            iter.seq() == all,
            res.len() == iter.index(),
            forall|i: int| 0 <= i < res.len() ==> res[i] == *all[i].0,
    {
        res.push(*pair.0);
    }
    proof {
        let order = all.map_values(|pair: (&ValidatorCode, &V)| *pair.0);
        assert(res@ =~= order);
        assert forall|i: int, j: int| 0 <= i < j < res.len() implies res@[i] < res@[j] by {
            assert(order[i].cmp_spec(&order[j]) is Less);
        }
        assert forall|code: ValidatorCode| #[trigger] validators@.contains_key(code) implies res@.contains(
            code,
        ) by {
            assert(all.contains((&code, &validators@[code])));
            let i = choose|i: int| 0 <= i < all.len() && all[i] == (&code, &validators@[code]);
            assert(res@[i] == code);
        }
        assert forall|code: ValidatorCode| res@.contains(code) implies #[trigger] validators@.contains_key(
            code,
        ) by {
            let i = choose|i: int| 0 <= i < res.len() && res@[i] == code;
            assert(validators@.contains_key(*all[i].0));
        }
    }
    res
}

} // verus!
