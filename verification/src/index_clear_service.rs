use vstd::prelude::*;
use crate::es_repository::{EsError, IndexRecord, ListBody};
use crate::target_index::TargetIndex;
use crate::time_utils::{valid_ymd, spec_eligible, Date, index_date_eligible, is_digit_char, is_sep_char, digit_val, is_digit, is_sep, digit_value, str_to_chars};

verus! {

/// Why no date could be taken from an index name; either way the index is
/// skipped, never the whole pattern.
#[derive(Clone, Copy, PartialEq, Eq, Structural, Debug)]
pub enum IndexDateError {
    /// No eight-digit token (with optional `-` or `_` separators) occurs.
    NoDateToken,
    /// A token occurs, but it mixes separated and unseparated groups or
    /// does not name a real calendar date.
    InvalidDate,
}

pub open spec fn four_digits_at(s: Seq<char>, i: int) -> bool {
    &&& i + 4 <= s.len()
    &&& is_digit_char(s[i])
    &&& is_digit_char(s[i + 1])
    &&& is_digit_char(s[i + 2])
    &&& is_digit_char(s[i + 3])
}

pub open spec fn two_digits_at(s: Seq<char>, j: int) -> bool {
    &&& j + 2 <= s.len()
    &&& is_digit_char(s[j])
    &&& is_digit_char(s[j + 1])
}

/// Whether the year group is followed by a separator. A separator there
/// must be part of the token: two digits cannot start with it.
pub open spec fn sep1_present(s: Seq<char>, i: int) -> bool {
    i + 4 < s.len() && is_sep_char(s[i + 4])
}

pub open spec fn month_start(s: Seq<char>, i: int) -> int {
    if sep1_present(s, i) {
        i + 5
    } else {
        i + 4
    }
}

pub open spec fn sep2_present(s: Seq<char>, i: int) -> bool {
    month_start(s, i) + 2 < s.len() && is_sep_char(s[month_start(s, i) + 2])
}

pub open spec fn day_start(s: Seq<char>, i: int) -> int {
    if sep2_present(s, i) {
        month_start(s, i) + 3
    } else {
        month_start(s, i) + 2
    }
}

/// Whether the date token — four digits, two digits and two digits, each
/// pair of groups optionally split by one `-` or `_` — matches at `i`.
pub open spec fn token_match_at(s: Seq<char>, i: int) -> bool {
    &&& 0 <= i
    &&& four_digits_at(s, i)
    &&& two_digits_at(s, month_start(s, i))
    &&& two_digits_at(s, day_start(s, i))
}

pub open spec fn token_year(s: Seq<char>, i: int) -> int {
    1000 * digit_val(s[i]) + 100 * digit_val(s[i + 1]) + 10 * digit_val(s[i + 2]) + digit_val(
        s[i + 3],
    )
}

pub open spec fn token_month(s: Seq<char>, i: int) -> int {
    10 * digit_val(s[month_start(s, i)]) + digit_val(s[month_start(s, i) + 1])
}

pub open spec fn token_day(s: Seq<char>, i: int) -> int {
    10 * digit_val(s[day_start(s, i)]) + digit_val(s[day_start(s, i) + 1])
}

/// The date a matched token normalizes and parses to: the dashed form needs
/// both separators, the compact form neither, and the groups must name a
/// real calendar date; anything else fails.
pub open spec fn token_date(s: Seq<char>, i: int) -> Option<Date> {
    if sep1_present(s, i) == sep2_present(s, i) && valid_ymd(
        token_year(s, i),
        token_month(s, i),
        token_day(s, i),
    ) {
        Some(
            Date {
                year: token_year(s, i) as i32,
                month: token_month(s, i) as u8,
                day: token_day(s, i) as u8,
            },
        )
    } else {
        None
    }
}

/// The leftmost position at or after `p` where the token matches.
pub open spec fn first_token_from(s: Seq<char>, p: int) -> Option<int>
    decreases s.len() - p,
{
    if p < 0 || p >= s.len() {
        None
    } else if token_match_at(s, p) {
        Some(p)
    } else {
        first_token_from(s, p + 1)
    }
}

/// What date extraction yields for a whole name: the leftmost token decides;
/// no token at all and a token that does not parse are reported apart.
pub open spec fn spec_parsed_date(s: Seq<char>) -> Result<Date, IndexDateError> {
    match first_token_from(s, 0) {
        None => Err(IndexDateError::NoDateToken),
        Some(i) => match token_date(s, i) {
            Some(d) => Ok(d),
            None => Err(IndexDateError::InvalidDate),
        },
    }
}

fn token_match_exec(v: &Vec<char>, i: usize) -> (b: bool)
    requires
        i as int <= v@.len(),
    ensures
        b == token_match_at(v@, i as int),
{
    let n = v.len();
    if n - i < 4 {
        return false;
    }
    if !(is_digit(v[i]) && is_digit(v[i + 1]) && is_digit(v[i + 2]) && is_digit(v[i + 3])) {
        return false;
    }
    let m: usize = if i + 4 < n && is_sep(v[i + 4]) {
        i + 5
    } else {
        i + 4
    };
    if n - m < 2 {
        return false;
    }
    if !(is_digit(v[m]) && is_digit(v[m + 1])) {
        return false;
    }
    let d: usize = if m + 2 < n && is_sep(v[m + 2]) {
        m + 3
    } else {
        m + 2
    };
    if n - d < 2 {
        return false;
    }
    is_digit(v[d]) && is_digit(v[d + 1])
}

/// Scans a name for its leftmost date token and parses it; the body does
/// exactly what the contract's spec functions describe.
#[verifier::loop_isolation(false)]
fn parse_index_date(index_name: &str) -> (r: Result<Date, IndexDateError>)
    ensures
        r == spec_parsed_date(index_name@),
        r is Ok ==> r->Ok_0.valid(),
{
    let v = str_to_chars(index_name);
    let n = v.len();
    let mut p: usize = 0;
    while p < n
        invariant
            p <= n,
            first_token_from(v@, 0) == first_token_from(v@, p as int),
        decreases n - p,
    {
        if token_match_exec(&v, p) {
            let sep1 = p + 4 < n && is_sep(v[p + 4]);
            let m: usize = if sep1 {
                p + 5
            } else {
                p + 4
            };
            let sep2 = m + 2 < n && is_sep(v[m + 2]);
            let dpos: usize = if sep2 {
                m + 3
            } else {
                m + 2
            };
            let year = 1000 * digit_value(v[p]) + 100 * digit_value(v[p + 1]) + 10 * digit_value(
                v[p + 2],
            ) + digit_value(v[p + 3]);
            let month = 10 * digit_value(v[m]) + digit_value(v[m + 1]);
            let day = 10 * digit_value(v[dpos]) + digit_value(v[dpos + 1]);
            if sep1 == sep2 {
                return match Date::new(year as i32, month, day) {
                    Some(date) => Ok(date),
                    None => Err(IndexDateError::InvalidDate),
                };
            } else {
                return Err(IndexDateError::InvalidDate);
            }
        }
        p = p + 1;
    }
    Err(IndexDateError::NoDateToken)
}

/// What one rule pass plans from the listed records, walked in order: the
/// names whose embedded date is past retention, up to the first record
/// without an index name, which aborts the pass there (second component).
/// Records whose name yields no date are skipped.
pub open spec fn spec_plan(records: Seq<IndexRecord>, today: Date, duration_days: u32) -> (
    Seq<Seq<char>>,
    bool,
)
    decreases records.len(),
{
    if records.len() == 0 {
        (Seq::<Seq<char>>::empty(), false)
    } else {
        match records[0].index {
            None => (Seq::<Seq<char>>::empty(), true),
            Some(name) => {
                let rest = spec_plan(records.drop_first(), today, duration_days);
                let due = match spec_parsed_date(name@) {
                    Ok(d) => spec_eligible(d, today, duration_days),
                    Err(_) => false,
                };
                if due {
                    (seq![name@] + rest.0, rest.1)
                } else {
                    rest
                }
            },
        }
    }
}

/// The names one rule pass deletes, given the listing's outcome.
pub open spec fn spec_planned_names(
    listing: Result<ListBody, EsError>,
    today: Date,
    duration_days: u32,
) -> Seq<Seq<char>> {
    match listing {
        Ok(ListBody::Records(records)) => spec_plan(records@, today, duration_days).0,
        _ => Seq::<Seq<char>>::empty(),
    }
}

/// The planned names whose delete call succeeded, in plan order.
pub open spec fn spec_deleted(names: Seq<Seq<char>>, results: Seq<Result<(), EsError>>) -> Seq<
    Seq<char>,
>
    decreases names.len(),
{
    if names.len() == 0 {
        Seq::<Seq<char>>::empty()
    } else if results[0] is Ok {
        seq![names[0]] + spec_deleted(names.drop_first(), results.drop_first())
    } else {
        spec_deleted(names.drop_first(), results.drop_first())
    }
}

/// The planned names whose delete call failed, in plan order.
pub open spec fn spec_failed(names: Seq<Seq<char>>, results: Seq<Result<(), EsError>>) -> Seq<
    Seq<char>,
>
    decreases names.len(),
{
    if names.len() == 0 {
        Seq::<Seq<char>>::empty()
    } else if results[0] is Ok {
        spec_failed(names.drop_first(), results.drop_first())
    } else {
        seq![names[0]] + spec_failed(names.drop_first(), results.drop_first())
    }
}

/// What one rule pass did: every planned name was attempted; the attempts
/// split into deletions that went through and deletions that failed.
#[derive(Debug, PartialEq, Eq)]
pub struct RuleReport {
    pub attempted: Vec<String>,
    pub deleted: Vec<String>,
    pub failed: Vec<String>,
}

impl RuleReport {
    pub open spec fn view(&self) -> (Seq<Seq<char>>, Seq<Seq<char>>, Seq<Seq<char>>) {
        (self.attempted.deep_view(), self.deleted.deep_view(), self.failed.deep_view())
    }
}

/// The whole of one rule pass as a value: what the pass returns for a given
/// listing outcome and given per-deletion outcomes.
pub open spec fn spec_rule_outcome(
    listing: Result<ListBody, EsError>,
    today: Date,
    duration_days: u32,
    delete_results: Seq<Result<(), EsError>>,
) -> Result<(Seq<Seq<char>>, Seq<Seq<char>>, Seq<Seq<char>>), EsError> {
    match listing {
        Err(e) => Err(e),
        Ok(ListBody::Unparsed) => Err(EsError::BadResponseBody),
        Ok(ListBody::NotArray) => Ok(
            (Seq::<Seq<char>>::empty(), Seq::<Seq<char>>::empty(), Seq::<Seq<char>>::empty()),
        ),
        Ok(ListBody::Records(records)) => {
            let plan = spec_plan(records@, today, duration_days);
            if plan.1 {
                Err(EsError::MissingIndexField)
            } else {
                Ok(
                    (
                        plan.0,
                        spec_deleted(plan.0, delete_results),
                        spec_failed(plan.0, delete_results),
                    ),
                )
            }
        },
    }
}

/// Whether an executable rule result says exactly what the specification
/// value says.
pub open spec fn rule_result_matches(
    r: Result<RuleReport, EsError>,
    s: Result<(Seq<Seq<char>>, Seq<Seq<char>>, Seq<Seq<char>>), EsError>,
) -> bool {
    match (r, s) {
        (Ok(rep), Ok(t)) => rep@ == t,
        (Err(e1), Err(e2)) => e1 == e2,
        _ => false,
    }
}

/// The retention engine for one target pattern; a test double only has to
/// meet the same contracts.
pub trait IndexClearService {
    /// Runs one rule pass over the listing's outcome: plans the deletions,
    /// consumes one delete outcome per planned name in order, and reports.
    /// A listing failure aborts the pattern; a record without a name aborts
    /// it at that record; a failed delete only marks that one name.
    fn delete_index_from_rule(
        &self,
        target_index: &TargetIndex,
        today: &Date,
        listing: Result<ListBody, EsError>,
        delete_results: Vec<Result<(), EsError>>,
    ) -> (r: Result<RuleReport, EsError>)
        requires
            today.valid(),
            delete_results@.len() == spec_planned_names(
                listing,
                *today,
                target_index.duration_days,
            ).len(),
        ensures
            listing is Err ==> r is Err && r->Err_0 == listing->Err_0,
            listing == Ok::<ListBody, EsError>(ListBody::Unparsed) ==> r == Err::<
                RuleReport,
                EsError,
            >(EsError::BadResponseBody),
            listing == Ok::<ListBody, EsError>(ListBody::NotArray) ==> r is Ok
                && r->Ok_0.attempted@.len() == 0 && r->Ok_0.deleted@.len() == 0
                && r->Ok_0.failed@.len() == 0,
            forall|records: Vec<IndexRecord>|
                listing == Ok::<ListBody, EsError>(ListBody::Records(records)) ==> {
                    let plan = spec_plan(records@, *today, target_index.duration_days);
                    &&& (plan.1 ==> r == Err::<RuleReport, EsError>(EsError::MissingIndexField))
                    &&& (!plan.1 ==> r is Ok && r->Ok_0.attempted.deep_view() == plan.0
                        && r->Ok_0.deleted.deep_view() == spec_deleted(plan.0, delete_results@)
                        && r->Ok_0.failed.deep_view() == spec_failed(plan.0, delete_results@))
                },
    ;

    /// Extracts the date embedded in an index name: the leftmost eight-digit
    /// token with optional `-`/`_` separators, normalized and parsed as a
    /// calendar date.
    fn parsed_data_index(&self, index_name: &str) -> (r: Result<Date, IndexDateError>)
        ensures
            r == spec_parsed_date(index_name@),
            r is Ok ==> r->Ok_0.valid(),
    ;
}

/// The engine's one real implementation.
#[derive(Debug, Clone)]
pub struct IndexClearServicePub;

impl IndexClearServicePub {
    pub fn new() -> (r: IndexClearServicePub)
        ensures
            r == IndexClearServicePub,
    {
        IndexClearServicePub
    }
}

/// Plans one rule pass over listed records: the names to delete in order,
/// and whether a record without an index name aborted the walk there.
#[verifier::loop_isolation(false)]
pub fn plan_deletions(records: &Vec<IndexRecord>, today: &Date, duration_days: u32) -> (r: (
    Vec<String>,
    bool,
))
    requires
        today.valid(),
    ensures
        r.0.deep_view() == spec_plan(records@, *today, duration_days).0,
        r.1 == spec_plan(records@, *today, duration_days).1,
{
    let ghost plan = spec_plan(records@, *today, duration_days);
    let mut planned: Vec<String> = Vec::new();
    proof {
        assert(records@.skip(0) =~= records@);
        assert(planned.deep_view() =~= Seq::<Seq<char>>::empty());
    }
    let mut i: usize = 0;
    while i < records.len()
        invariant
            i <= records@.len(),
            planned.deep_view() + spec_plan(records@.skip(i as int), *today, duration_days).0
                =~= plan.0,
            spec_plan(records@.skip(i as int), *today, duration_days).1 == plan.1,
        decreases records@.len() - i,
    {
        let ghost at = records@.skip(i as int);
        proof {
            assert(at[0] == records@[i as int]);
            assert(at.drop_first() =~= records@.skip(i as int + 1));
        }
        match &records[i].index {
            None => {
                proof {
                    assert(planned.deep_view() =~= plan.0);
                }
                return (planned, true);
            },
            Some(name) => {
                let due = match parse_index_date(name.as_str()) {
                    Ok(d) => index_date_eligible(&d, today, duration_days),
                    Err(_) => false,
                };
                if due {
                    let ghost before = planned.deep_view();
                    planned.push(name.clone());
                    proof {
                        assert(planned.deep_view() =~= before.push(name@));
                        assert(before.push(name@) =~= before + seq![name@]);
                    }
                }
            },
        }
        i = i + 1;
    }
    proof {
        assert(records@.skip(records@.len() as int) =~= Seq::<IndexRecord>::empty());
        assert(planned.deep_view() =~= plan.0);
    }
    (planned, false)
}

impl IndexClearService for IndexClearServicePub {
    #[verifier::loop_isolation(false)]
    #[allow(unused_variables)]
    fn delete_index_from_rule(
        &self,
        target_index: &TargetIndex,
        today: &Date,
        listing: Result<ListBody, EsError>,
        delete_results: Vec<Result<(), EsError>>,
    ) -> (r: Result<RuleReport, EsError>) {
        let ghost glisting = listing;
        let records = match listing {
            Err(e) => {
                return Err(e);
            },
            Ok(ListBody::Unparsed) => {
                return Err(EsError::BadResponseBody);
            },
            Ok(ListBody::NotArray) => {
                return Ok(
                    RuleReport { attempted: Vec::new(), deleted: Vec::new(), failed: Vec::new() },
                );
            },
            Ok(ListBody::Records(recs)) => recs,
        };
        let (planned, aborted) = plan_deletions(&records, today, target_index.duration_days);
        if aborted {
            return Err(EsError::MissingIndexField);
        }
        let mut deleted: Vec<String> = Vec::new();
        let mut failed: Vec<String> = Vec::new();
        proof {
            assert(planned.deep_view().len() == planned@.len());
            assert(planned.deep_view().skip(0) =~= planned.deep_view());
            assert(delete_results@.skip(0) =~= delete_results@);
            assert(deleted.deep_view() =~= Seq::<Seq<char>>::empty());
            assert(failed.deep_view() =~= Seq::<Seq<char>>::empty());
        }
        let mut j: usize = 0;
        while j < planned.len()
            invariant
                j <= planned@.len(),
                planned@.len() == delete_results@.len(),
                deleted.deep_view() + spec_deleted(
                    planned.deep_view().skip(j as int),
                    delete_results@.skip(j as int),
                ) =~= spec_deleted(planned.deep_view(), delete_results@),
                failed.deep_view() + spec_failed(
                    planned.deep_view().skip(j as int),
                    delete_results@.skip(j as int),
                ) =~= spec_failed(planned.deep_view(), delete_results@),
            decreases planned@.len() - j,
        {
            let ghost nm = planned.deep_view().skip(j as int);
            let ghost rs = delete_results@.skip(j as int);
            proof {
                assert(nm[0] == planned.deep_view()[j as int]);
                assert(rs[0] == delete_results@[j as int]);
                assert(nm.drop_first() =~= planned.deep_view().skip(j as int + 1));
                assert(rs.drop_first() =~= delete_results@.skip(j as int + 1));
            }
            match &delete_results[j] {
                Ok(_) => {
                    let ghost before = deleted.deep_view();
                    deleted.push(planned[j].clone());
                    proof {
                        assert(deleted.deep_view() =~= before.push(planned.deep_view()[j as int]));
                        assert(before.push(planned.deep_view()[j as int]) =~= before + seq![
                            planned.deep_view()[j as int],
                        ]);
                    }
                },
                Err(_) => {
                    let ghost before = failed.deep_view();
                    failed.push(planned[j].clone());
                    proof {
                        assert(failed.deep_view() =~= before.push(planned.deep_view()[j as int]));
                        assert(before.push(planned.deep_view()[j as int]) =~= before + seq![
                            planned.deep_view()[j as int],
                        ]);
                    }
                },
            }
            j = j + 1;
        }
        proof {
            assert(planned.deep_view().skip(planned@.len() as int) =~= Seq::<Seq<char>>::empty());
            assert(delete_results@.skip(planned@.len() as int) =~= Seq::<
                Result<(), EsError>,
            >::empty());
            assert(deleted.deep_view() =~= spec_deleted(planned.deep_view(), delete_results@));
            assert(failed.deep_view() =~= spec_failed(planned.deep_view(), delete_results@));
        }
        Ok(RuleReport { attempted: planned, deleted, failed })
    }

    fn parsed_data_index(&self, index_name: &str) -> (r: Result<Date, IndexDateError>) {
        parse_index_date(index_name)
    }
}

/// A delete failure is isolated to its own index: every planned name whose
/// own delete call succeeded is deleted, whatever happened to the calls
/// before or after it; every planned name is attempted either way.
pub proof fn lemma_delete_failure_isolated(
    names: Seq<Seq<char>>,
    results: Seq<Result<(), EsError>>,
)
    requires
        names.len() == results.len(),
    ensures
        forall|i: int|
            0 <= i < names.len() && results[i] is Ok ==> #[trigger] spec_deleted(
                names,
                results,
            ).contains(names[i]),
        forall|i: int|
            0 <= i < names.len() && results[i] is Err ==> #[trigger] spec_failed(
                names,
                results,
            ).contains(names[i]),
    decreases names.len(),
{
    if names.len() > 0 {
        lemma_delete_failure_isolated(names.drop_first(), results.drop_first());
        assert forall|i: int|
            0 <= i < names.len() && results[i] is Ok implies #[trigger] spec_deleted(
            names,
            results,
        ).contains(names[i]) by {
            if i == 0 {
                assert(spec_deleted(names, results)[0] == names[0]);
            } else {
                assert(names.drop_first()[i - 1] == names[i]);
                assert(results.drop_first()[i - 1] == results[i]);
                let rest = spec_deleted(names.drop_first(), results.drop_first());
                assert(rest.contains(names[i]));
                let k = choose|k: int| 0 <= k < rest.len() && rest[k] == names[i];
                if results[0] is Ok {
                    assert(spec_deleted(names, results)[k + 1] == names[i]);
                } else {
                    assert(spec_deleted(names, results)[k] == names[i]);
                }
            }
        }
        assert forall|i: int|
            0 <= i < names.len() && results[i] is Err implies #[trigger] spec_failed(
            names,
            results,
        ).contains(names[i]) by {
            if i == 0 {
                assert(spec_failed(names, results)[0] == names[0]);
            } else {
                assert(names.drop_first()[i - 1] == names[i]);
                assert(results.drop_first()[i - 1] == results[i]);
                let rest = spec_failed(names.drop_first(), results.drop_first());
                assert(rest.contains(names[i]));
                let k = choose|k: int| 0 <= k < rest.len() && rest[k] == names[i];
                if results[0] is Err {
                    assert(spec_failed(names, results)[k + 1] == names[i]);
                } else {
                    assert(spec_failed(names, results)[k] == names[i]);
                }
            }
        }
    }
}

/// The records that survive a run: those whose name was not among the
/// successfully removed ones, in their original order.
pub open spec fn spec_surviving(records: Seq<IndexRecord>, removed: Seq<Seq<char>>) -> Seq<
    IndexRecord,
>
    decreases records.len(),
{
    if records.len() == 0 {
        Seq::<IndexRecord>::empty()
    } else {
        let rest = spec_surviving(records.drop_first(), removed);
        let keep = match records[0].index {
            Some(name) => !removed.contains(name@),
            None => true,
        };
        if keep {
            seq![records[0]] + rest
        } else {
            rest
        }
    }
}

proof fn lemma_plan_after_removal(
    records: Seq<IndexRecord>,
    today: Date,
    duration_days: u32,
    removed: Seq<Seq<char>>,
)
    requires
        forall|n: Seq<char>|
            #[trigger] spec_plan(records, today, duration_days).0.contains(n) ==> removed.contains(
                n,
            ),
    ensures
        spec_plan(spec_surviving(records, removed), today, duration_days).0 =~= Seq::<
            Seq<char>,
        >::empty(),
    decreases records.len(),
{
    if records.len() > 0 {
        let rest = records.drop_first();
        let plan0 = spec_plan(records, today, duration_days).0;
        let restplan = spec_plan(rest, today, duration_days).0;
        match records[0].index {
            None => {
                let surv = spec_surviving(records, removed);
                assert(surv[0] == records[0]);
            },
            Some(name) => {
                let due = match spec_parsed_date(name@) {
                    Ok(d) => spec_eligible(d, today, duration_days),
                    Err(_) => false,
                };
                assert forall|n: Seq<char>| #[trigger]
                    restplan.contains(n) implies removed.contains(n) by {
                    let k = choose|k: int| 0 <= k < restplan.len() && restplan[k] == n;
                    if due {
                        assert(plan0[k + 1] == n);
                    } else {
                        assert(plan0[k] == n);
                    }
                    assert(plan0.contains(n));
                }
                lemma_plan_after_removal(rest, today, duration_days, removed);
                if removed.contains(name@) {
                    assert(spec_surviving(records, removed) =~= spec_surviving(rest, removed));
                } else {
                    if due {
                        assert(plan0[0] == name@);
                        assert(plan0.contains(name@));
                        assert(false);
                    }
                    let surv = spec_surviving(records, removed);
                    assert(surv =~= seq![records[0]] + spec_surviving(rest, removed));
                    assert(surv[0] == records[0]);
                    assert(surv.drop_first() =~= spec_surviving(rest, removed));
                }
            },
        }
    }
}

/// Running the same rule twice in a row is idempotent: when every deletion
/// the first run planned went through and no new indices appeared, the
/// second run's listing holds only surviving records, and it plans nothing.
pub proof fn lemma_second_run_is_noop(records: Seq<IndexRecord>, today: Date, duration_days: u32)
    ensures
        spec_plan(
            spec_surviving(records, spec_plan(records, today, duration_days).0),
            today,
            duration_days,
        ).0 =~= Seq::<Seq<char>>::empty(),
{
    lemma_plan_after_removal(
        records,
        today,
        duration_days,
        spec_plan(records, today, duration_days).0,
    );
}

} // verus!
