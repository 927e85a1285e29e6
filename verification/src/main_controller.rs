use vstd::prelude::*;
use crate::es_repository::{EsError, ListBody};
use crate::index_clear_service::{
    IndexClearService,
    RuleReport,
    rule_result_matches,
    spec_planned_names,
    spec_rule_outcome,
};
use crate::target_index::TargetIndexList;
use crate::time_utils::Date;

verus! {

/// The outside work one rule task consumed, as its driver performed it:
/// the listing outcome, and one delete outcome per planned deletion.
pub struct RuleIo {
    pub listing: Result<ListBody, EsError>,
    pub delete_results: Vec<Result<(), EsError>>,
}

/// Fans the retention engine out over every configured rule and gathers
/// each task's outcome without letting one failure touch another task.
pub struct MainController<I: IndexClearService> {
    index_clear_service: I,
}

impl<I: IndexClearService> MainController<I> {
    pub closed spec fn service(&self) -> I {
        self.index_clear_service
    }

    pub fn new(index_clear_service: I) -> (r: MainController<I>)
        ensures
            r.service() == index_clear_service,
    {
        MainController { index_clear_service }
    }

    /// Runs one rule task per configured rule and returns every task's
    /// outcome: each outcome is a function of that rule and its own outside
    /// work alone, so no rule's failure can abort or change another's, and
    /// the batch itself always runs to completion.
    #[verifier::loop_isolation(false)]
    pub fn main_task(&self, target_indexes: &TargetIndexList, today: &Date, io: Vec<RuleIo>) -> (
        outcomes: Vec<Result<RuleReport, EsError>>
    )
        requires
            today.valid(),
            io@.len() == target_indexes.index@.len(),
            forall|k: int|
                0 <= k < io@.len() ==> (#[trigger] io@[k].delete_results)@.len()
                    == spec_planned_names(
                    io@[k].listing,
                    *today,
                    target_indexes.index@[k].duration_days,
                ).len(),
        ensures
            outcomes@.len() == target_indexes.index@.len(),
            forall|k: int|
                0 <= k < outcomes@.len() ==> rule_result_matches(
                    #[trigger] outcomes@[k],
                    spec_rule_outcome(
                        io@[k].listing,
                        *today,
                        target_indexes.index@[k].duration_days,
                        io@[k].delete_results@,
                    ),
                ),
    {
        let ghost gio = io@;
        let mut rest = io;
        let mut outcomes: Vec<Result<RuleReport, EsError>> = Vec::new();
        let mut k: usize = 0;
        proof {
            assert(gio.skip(0) =~= gio);
        }
        while k < target_indexes.index.len()
            invariant
                k <= target_indexes.index@.len(),
                outcomes@.len() == k as int,
                rest@ =~= gio.skip(k as int),
                forall|t: int|
                    0 <= t < k as int ==> rule_result_matches(
                        #[trigger] outcomes@[t],
                        spec_rule_outcome(
                            gio[t].listing,
                            *today,
                            target_indexes.index@[t].duration_days,
                            gio[t].delete_results@,
                        ),
                    ),
            decreases target_indexes.index@.len() - k,
        {
            let ghost before = rest@;
            let one = rest.remove(0);
            proof {
                assert(one == gio[k as int]);
                assert(rest@ =~= gio.skip(k as int + 1));
            }
            let RuleIo { listing, delete_results } = one;
            let ghost glisting = listing;
            let ghost gresults = delete_results@;
            let rule = &target_indexes.index[k];
            let res = self.index_clear_service.delete_index_from_rule(
                rule,
                today,
                listing,
                delete_results,
            );
            proof {
                let s = spec_rule_outcome(glisting, *today, rule.duration_days, gresults);
                match glisting {
                    Err(_) => {},
                    Ok(body) => match body {
                        ListBody::Unparsed => {
                            assert(glisting == Ok::<ListBody, EsError>(ListBody::Unparsed));
                        },
                        ListBody::NotArray => {
                            assert(glisting == Ok::<ListBody, EsError>(ListBody::NotArray));
                            let rep = res->Ok_0;
                            assert(rep.attempted.deep_view() =~= Seq::<Seq<char>>::empty());
                            assert(rep.deleted.deep_view() =~= Seq::<Seq<char>>::empty());
                            assert(rep.failed.deep_view() =~= Seq::<Seq<char>>::empty());
                        },
                        ListBody::Records(recs) => {
                            assert(glisting == Ok::<ListBody, EsError>(ListBody::Records(recs)));
                        },
                    },
                }
                assert(rule_result_matches(res, s));
            }
            outcomes.push(res);
            k = k + 1;
        }
        outcomes
    }
}

} // verus!
