//! Candidate filtering for the interactive start and stop flows, the menu
//! labels shown for each candidate, and status lookup by name.
use crate::record::{Backend, RecordView, ServiceRecord, views_of_records};
use vstd::prelude::*;

verus! {

/// A record offered for starting: status exactly `stopped`, or any
/// package-manager record whose status is not exactly `started`. The second
/// disjunct is deliberately broader than the listing filter's exact match.
pub open spec fn is_start_candidate(r: RecordView) -> bool {
    r.status == "stopped"@ || (r.backend == Backend::PackageManager && r.status != "started"@)
}

/// A record offered for stopping: status exactly `running` or exactly
/// `started`, covering both backends' vocabularies.
pub open spec fn is_stop_candidate(r: RecordView) -> bool {
    r.status == "running"@ || r.status == "started"@
}

/// Executable test matching `is_start_candidate`.
pub fn record_is_start_candidate(r: &ServiceRecord) -> (b: bool)
    ensures
        b == is_start_candidate(r@),
{
    let stopped = r.status == String::from_str("stopped");
    let started = r.status == String::from_str("started");
    stopped || (r.backend == Backend::PackageManager && !started)
}

/// Executable test matching `is_stop_candidate`.
pub fn record_is_stop_candidate(r: &ServiceRecord) -> (b: bool)
    ensures
        b == is_stop_candidate(r@),
{
    r.status == String::from_str("running") || r.status == String::from_str("started")
}

/// The positions of the start candidates, in order.
pub open spec fn start_candidate_positions(s: Seq<RecordView>) -> Seq<int>
    decreases s.len(),
{
    if s.len() == 0 {
        Seq::empty()
    } else {
        let rest = start_candidate_positions(s.drop_last());
        if is_start_candidate(s.last()) {
            rest.push(s.len() - 1)
        } else {
            rest
        }
    }
}

/// The positions of the stop candidates, in order.
pub open spec fn stop_candidate_positions(s: Seq<RecordView>) -> Seq<int>
    decreases s.len(),
{
    if s.len() == 0 {
        Seq::empty()
    } else {
        let rest = stop_candidate_positions(s.drop_last());
        if is_stop_candidate(s.last()) {
            rest.push(s.len() - 1)
        } else {
            rest
        }
    }
}

/// The uppercase tag a backend is labeled with in the menus.
pub open spec fn backend_tag(b: Backend) -> Seq<char> {
    match b {
        Backend::Native => "LAUNCHD"@,
        Backend::PackageManager => "BREW"@,
    }
}

/// The label of a start candidate: the name followed by its backend tag.
pub open spec fn start_label_spec(r: RecordView) -> Seq<char> {
    r.name + " ["@ + backend_tag(r.backend) + "]"@
}

/// The label of a stop candidate: the start label, and the PID when present.
pub open spec fn stop_label_spec(r: RecordView) -> Seq<char> {
    match r.pid {
        Some(p) => start_label_spec(r) + " (PID: "@ + p + ")"@,
        None => start_label_spec(r),
    }
}

/// Builds the menu label `<name> [<BACKEND>]`.
pub fn start_label(r: &ServiceRecord) -> (s: String)
    ensures
        s@ == start_label_spec(r@),
{
    let mut s = r.name.clone();
    s.append(" [");
    match r.backend {
        Backend::Native => s.append("LAUNCHD"),
        Backend::PackageManager => s.append("BREW"),
    }
    s.append("]");
    s
}

/// Builds the menu label `<name> [<BACKEND>] (PID: <pid>)`, the PID suffix
/// only when the record has one.
pub fn stop_label(r: &ServiceRecord) -> (s: String)
    ensures
        s@ == stop_label_spec(r@),
{
    let mut s = start_label(r);
    match &r.pid {
        Some(p) => {
            s.append(" (PID: ");
            s.append(p.as_str());
            s.append(")");
        },
        None => {},
    }
    s
}

/// Builds the start menu: the candidate positions and, aligned with them,
/// the labels to display.
pub fn start_menu(records: &Vec<ServiceRecord>) -> (r: (Vec<usize>, Vec<String>))
    ensures
        r.0@.map_values(|u: usize| u as int) == start_candidate_positions(
            views_of_records(records@),
        ),
        r.1@.len() == r.0@.len(),
        forall|k: int|
            0 <= k < r.0@.len() ==> r.0@[k] < records@.len() && r.1@[k]@ == start_label_spec(
                records@[r.0@[k] as int]@,
            ),
{
    let mut idx: Vec<usize> = Vec::new();
    let mut labels: Vec<String> = Vec::new();
    let mut i: usize = 0;
    proof {
        assert(views_of_records(records@).take(0) =~= Seq::<RecordView>::empty());
        assert(idx@.map_values(|u: usize| u as int) =~= Seq::<int>::empty());
    }
    while i < records.len()
        invariant
            i <= records@.len(),
            idx@.map_values(|u: usize| u as int) == start_candidate_positions(
                views_of_records(records@).take(i as int),
            ),
            labels@.len() == idx@.len(),
            forall|k: int|
                0 <= k < idx@.len() ==> idx@[k] < records@.len() && labels@[k]@
                    == start_label_spec(records@[idx@[k] as int]@),
        decreases records@.len() - i,
    {
        let ghost prev = idx@;
        if record_is_start_candidate(&records[i]) {
            idx.push(i);
            labels.push(start_label(&records[i]));
            proof {
                assert(idx@.map_values(|u: usize| u as int) =~= prev.map_values(
                    |u: usize| u as int,
                ).push(i as int));
            }
        }
        proof {
            let t = views_of_records(records@).take(i + 1);
            assert(t.drop_last() =~= views_of_records(records@).take(i as int));
            assert(t.last() == records@[i as int]@);
        }
        i = i + 1;
    }
    proof {
        assert(views_of_records(records@).take(records@.len() as int) =~= views_of_records(
            records@,
        ));
    }
    (idx, labels)
}

/// Builds the stop menu: the candidate positions and, aligned with them,
/// the labels to display.
pub fn stop_menu(records: &Vec<ServiceRecord>) -> (r: (Vec<usize>, Vec<String>))
    ensures
        r.0@.map_values(|u: usize| u as int) == stop_candidate_positions(
            views_of_records(records@),
        ),
        r.1@.len() == r.0@.len(),
        forall|k: int|
            0 <= k < r.0@.len() ==> r.0@[k] < records@.len() && r.1@[k]@ == stop_label_spec(
                records@[r.0@[k] as int]@,
            ),
{
    let mut idx: Vec<usize> = Vec::new();
    let mut labels: Vec<String> = Vec::new();
    let mut i: usize = 0;
    proof {
        assert(views_of_records(records@).take(0) =~= Seq::<RecordView>::empty());
        assert(idx@.map_values(|u: usize| u as int) =~= Seq::<int>::empty());
    }
    while i < records.len()
        invariant
            i <= records@.len(),
            idx@.map_values(|u: usize| u as int) == stop_candidate_positions(
                views_of_records(records@).take(i as int),
            ),
            labels@.len() == idx@.len(),
            forall|k: int|
                0 <= k < idx@.len() ==> idx@[k] < records@.len() && labels@[k]@ == stop_label_spec(
                    records@[idx@[k] as int]@,
                ),
        decreases records@.len() - i,
    {
        let ghost prev = idx@;
        if record_is_stop_candidate(&records[i]) {
            idx.push(i);
            labels.push(stop_label(&records[i]));
            proof {
                assert(idx@.map_values(|u: usize| u as int) =~= prev.map_values(
                    |u: usize| u as int,
                ).push(i as int));
            }
        }
        proof {
            let t = views_of_records(records@).take(i + 1);
            assert(t.drop_last() =~= views_of_records(records@).take(i as int));
            assert(t.last() == records@[i as int]@);
        }
        i = i + 1;
    }
    proof {
        assert(views_of_records(records@).take(records@.len() as int) =~= views_of_records(
            records@,
        ));
    }
    (idx, labels)
}

/// Finds the first record with the given name, as the status flow does.
pub fn find_service(records: &Vec<ServiceRecord>, name: &str) -> (r: Option<usize>)
    ensures
        match r {
            Some(i) => i < records@.len() && records@[i as int]@.name == name@ && (forall|j: int|
                0 <= j < i ==> records@[j]@.name != name@),
            None => forall|j: int| 0 <= j < records@.len() ==> records@[j]@.name != name@,
        },
{
    let wanted = String::from_str(name);
    let mut i: usize = 0;
    while i < records.len()
        invariant
            i <= records@.len(),
            wanted@ == name@,
            forall|j: int| 0 <= j < i ==> records@[j]@.name != name@,
        decreases records@.len() - i,
    {
        if records[i].name == wanted {
            return Some(i);
        }
        i = i + 1;
    }
    None
}

/// There is no start candidate exactly when the start menu is empty: the
/// flows short-circuit with a message instead of opening a selection.
pub proof fn lemma_empty_start_menu(s: Seq<RecordView>)
    ensures
        start_candidate_positions(s).len() == 0 <==> (forall|i: int|
            0 <= i < s.len() ==> !is_start_candidate(s[i])),
    decreases s.len(),
{
    if s.len() > 0 {
        lemma_empty_start_menu(s.drop_last());
        assert(forall|i: int| 0 <= i < s.len() - 1 ==> s.drop_last()[i] == s[i]);
    }
}

/// There is no stop candidate exactly when the stop menu is empty.
pub proof fn lemma_empty_stop_menu(s: Seq<RecordView>)
    ensures
        stop_candidate_positions(s).len() == 0 <==> (forall|i: int|
            0 <= i < s.len() ==> !is_stop_candidate(s[i])),
    decreases s.len(),
{
    if s.len() > 0 {
        lemma_empty_stop_menu(s.drop_last());
        assert(forall|i: int| 0 <= i < s.len() - 1 ==> s.drop_last()[i] == s[i]);
    }
}

/// The start positions name exactly the start candidates, each within range,
/// in strictly increasing order.
pub proof fn lemma_start_positions_characterize(s: Seq<RecordView>)
    ensures
        forall|k: int|
            0 <= k < start_candidate_positions(s).len() ==> 0 <= #[trigger] start_candidate_positions(
                s,
            )[k] < s.len() && is_start_candidate(s[start_candidate_positions(s)[k]]),
        forall|k1: int, k2: int|
            0 <= k1 < k2 < start_candidate_positions(s).len() ==> #[trigger] start_candidate_positions(
                s,
            )[k1] < #[trigger] start_candidate_positions(s)[k2],
        forall|i: int|
            0 <= i < s.len() && is_start_candidate(s[i]) ==> start_candidate_positions(s).contains(
                i,
            ),
    decreases s.len(),
{
    if s.len() > 0 {
        lemma_start_positions_characterize(s.drop_last());
        let rest = start_candidate_positions(s.drop_last());
        assert(forall|i: int| 0 <= i < s.len() - 1 ==> s.drop_last()[i] == s[i]);
        assert forall|i: int|
            0 <= i < s.len() && is_start_candidate(s[i]) implies start_candidate_positions(
            s,
        ).contains(i) by {
            if i < s.len() - 1 {
                assert(rest.contains(i));
                let k = choose|k: int| 0 <= k < rest.len() && rest[k] == i;
                assert(start_candidate_positions(s)[k] == i);
            } else {
                let out = start_candidate_positions(s);
                assert(out[out.len() - 1] == i);
            }
        }
    }
}

/// The stop positions name exactly the stop candidates, each within range,
/// in strictly increasing order.
pub proof fn lemma_stop_positions_characterize(s: Seq<RecordView>)
    ensures
        forall|k: int|
            0 <= k < stop_candidate_positions(s).len() ==> 0 <= #[trigger] stop_candidate_positions(
                s,
            )[k] < s.len() && is_stop_candidate(s[stop_candidate_positions(s)[k]]),
        forall|k1: int, k2: int|
            0 <= k1 < k2 < stop_candidate_positions(s).len() ==> #[trigger] stop_candidate_positions(
                s,
            )[k1] < #[trigger] stop_candidate_positions(s)[k2],
        forall|i: int|
            0 <= i < s.len() && is_stop_candidate(s[i]) ==> stop_candidate_positions(s).contains(
                i,
            ),
    decreases s.len(),
{
    if s.len() > 0 {
        lemma_stop_positions_characterize(s.drop_last());
        let rest = stop_candidate_positions(s.drop_last());
        assert(forall|i: int| 0 <= i < s.len() - 1 ==> s.drop_last()[i] == s[i]);
        assert forall|i: int|
            0 <= i < s.len() && is_stop_candidate(s[i]) implies stop_candidate_positions(
            s,
        ).contains(i) by {
            if i < s.len() - 1 {
                assert(rest.contains(i));
                let k = choose|k: int| 0 <= k < rest.len() && rest[k] == i;
                assert(stop_candidate_positions(s)[k] == i);
            } else {
                let out = stop_candidate_positions(s);
                assert(out[out.len() - 1] == i);
            }
        }
    }
}

/// A package-manager record with status `starting` is a start candidate,
/// while one with status `started` is not; a native record is one exactly
/// when its status is `stopped`.
pub proof fn lemma_start_candidate_cases(r: RecordView)
    ensures
        r.backend == Backend::PackageManager && r.status == "starting"@ ==> is_start_candidate(r),
        r.backend == Backend::PackageManager && r.status == "started"@ ==> !is_start_candidate(r),
        r.backend == Backend::Native ==> (is_start_candidate(r) <==> r.status == "stopped"@),
{
    reveal_strlit("starting");
    reveal_strlit("started");
    reveal_strlit("stopped");
    assert("starting"@.len() == 8 && "started"@.len() == 7 && "stopped"@.len() == 7);
    assert("stopped"@[1] == 't' && "started"@[1] == 't' && "stopped"@[2] == 'o' && "started"@[2]
        == 'a');
}

/// A record with status exactly `running` or exactly `started` is a stop
/// candidate; one with status `starting` is not.
pub proof fn lemma_stop_candidate_cases(r: RecordView)
    ensures
        r.status == "running"@ ==> is_stop_candidate(r),
        r.status == "started"@ ==> is_stop_candidate(r),
        r.status == "starting"@ ==> !is_stop_candidate(r),
{
    reveal_strlit("starting");
    reveal_strlit("started");
    reveal_strlit("running");
    assert("starting"@.len() == 8 && "started"@.len() == 7 && "running"@.len() == 7);
    assert("starting"@[0] == 's' && "running"@[0] == 'r');
}

} // verus!
