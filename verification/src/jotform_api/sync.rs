//! Bringing the stored maintenance requests up to date with the form
//! service: each fetched request is inserted when its id is new and updated
//! otherwise, the update leaving the stored status alone.
use crate::models::Jotform;
use crate::text::text_is;
use vstd::prelude::*;

verus! {

/// What to do with the fetched request at a position.
#[derive(Clone, Copy, Debug, PartialEq, Eq, Structural)]
pub enum SyncAction {
    Insert(usize),
    Update(usize),
}

/// Whether `id` is among the stored ids.
pub open spec fn id_known(existing_ids: Seq<String>, id: Seq<char>) -> bool {
    exists|k: int| 0 <= k < existing_ids.len() && (#[trigger] existing_ids[k])@ == id
}

/// The plan: position by position, update a request whose id is stored and
/// insert the others.
pub open spec fn sync_plan(submissions: Seq<Jotform>, existing_ids: Seq<String>) -> Seq<SyncAction> {
    Seq::new(
        submissions.len(),
        |i: int|
            if id_known(existing_ids, submissions[i].id@) {
                SyncAction::Update(i as usize)
            } else {
                SyncAction::Insert(i as usize)
            },
    )
}

/// Whether `id` is among the stored ids.
pub fn contains_id(existing_ids: &Vec<String>, id: &str) -> (r: bool)
    ensures
        r == id_known(existing_ids@, id@),
{
    let n = existing_ids.len();
    let mut k: usize = 0;
    while k < n
        invariant
            n == existing_ids@.len(),
            k <= n,
            forall|m: int| 0 <= m < k ==> (#[trigger] existing_ids@[m])@ != id@,
        decreases n - k,
    {
        if text_is(existing_ids[k].as_str(), id) {
            return true;
        }
        k = k + 1;
    }
    false
}

/// The writes that bring the stored requests up to date with
/// `new_submissions`, one per fetched request and in their order.
pub fn plan_sync(new_submissions: &Vec<Jotform>, existing_ids: &Vec<String>) -> (r: Vec<SyncAction>)
    ensures
        r@ == sync_plan(new_submissions@, existing_ids@),
{
    let n = new_submissions.len();
    let mut r: Vec<SyncAction> = Vec::new();
    let mut i: usize = 0;
    while i < n
        invariant
            n == new_submissions@.len(),
            i <= n,
            r@ =~= sync_plan(new_submissions@, existing_ids@).take(i as int),
        decreases n - i,
    {
        if contains_id(existing_ids, new_submissions[i].id.as_str()) {
            r.push(SyncAction::Update(i));
        } else {
            r.push(SyncAction::Insert(i));
        }
        i = i + 1;
    }
    r
}

/// The column values written when a request is inserted, in column order:
/// id, first name, last name, date, time, location, exhibit name,
/// description, priority, department, and status "Open".
pub open spec fn insert_row(j: Jotform) -> Seq<Seq<char>> {
    seq![
        j.id@,
        j.submitter_name.first@,
        j.submitter_name.last@,
        j.created_at.date@,
        j.created_at.time@,
        j.location@,
        j.exhibit_name@,
        j.description@,
        j.priority_level@,
        j.department@,
        "Open"@,
    ]
}

/// The values bound when a request is updated: the id, then the columns it
/// rewrites (all but the status).
pub open spec fn update_values(j: Jotform) -> Seq<Seq<char>> {
    insert_row(j).take(10)
}

/// The values of `insert_row`.
pub fn insert_values(j: &Jotform) -> (r: Vec<String>)
    ensures
        r@.map_values(|s: String| s@) == insert_row(*j),
{
    let mut r = update_values_of(j);
    let ghost before = r@;
    r.push(String::from_str("Open"));
    assert(r@.map_values(|s: String| s@) =~= before.map_values(|s: String| s@).push("Open"@));
    assert(update_values(*j).push("Open"@) =~= insert_row(*j));
    r
}

/// The values of `update_values`.
pub fn update_values_of(j: &Jotform) -> (r: Vec<String>)
    ensures
        r@.map_values(|s: String| s@) == update_values(*j),
{
    let mut r: Vec<String> = Vec::new();
    r.push(j.id.clone());
    r.push(j.submitter_name.first.clone());
    r.push(j.submitter_name.last.clone());
    r.push(j.created_at.date.clone());
    r.push(j.created_at.time.clone());
    r.push(j.location.clone());
    r.push(j.exhibit_name.clone());
    r.push(j.description.clone());
    r.push(j.priority_level.clone());
    r.push(j.department.clone());
    assert(r@.map_values(|s: String| s@) =~= update_values(*j));
    r
}

/// The columns a request is stored in, in the order of `insert_row`, and
/// the value each one gets: the id, the submitter's first then last name,
/// the submission's date then time, the location, the exhibit's name, the
/// description, the priority, the department, and the status "Open". An
/// update binds the same values without the status.
pub proof fn lemma_row_columns(j: Jotform)
    ensures
        insert_row(j).len() == 11,
        insert_row(j)[0] == j.id@,
        insert_row(j)[1] == j.submitter_name.first@,
        insert_row(j)[2] == j.submitter_name.last@,
        insert_row(j)[3] == j.created_at.date@,
        insert_row(j)[4] == j.created_at.time@,
        insert_row(j)[5] == j.location@,
        insert_row(j)[6] == j.exhibit_name@,
        insert_row(j)[7] == j.description@,
        insert_row(j)[8] == j.priority_level@,
        insert_row(j)[9] == j.department@,
        insert_row(j)[10] == "Open"@,
        update_values(j).len() == 10,
        forall|k: int| 0 <= k < 10 ==> #[trigger] update_values(j)[k] == insert_row(j)[k],
{
}

/// Fetching a stored request again and syncing it, with nothing changed,
/// leaves the stored requests as they were: an update writes each column
/// back where the insertion put it.
pub proof fn lemma_resync_changes_nothing(table: Map<Seq<char>, Seq<Seq<char>>>, j: Jotform, status: Seq<char>)
    requires
        table.contains_key(j.id@),
        table[j.id@] == insert_row(j).take(10).push(status),
    ensures
        after_update(table, update_values(j)) == table,
{
    lemma_row_columns(j);
    assert(update_values(j)[0] == j.id@);
    assert(update_values(j).push(table[j.id@][10]) =~= table[j.id@]);
    assert(table.insert(j.id@, table[j.id@]) =~= table);
}

/// Syncing a request that was stored by a sync, fetched again unchanged,
/// leaves its stored row as the insertion made it.
pub proof fn lemma_insert_then_update_keeps_row(table: Map<Seq<char>, Seq<Seq<char>>>, j: Jotform)
    requires
        !table.contains_key(j.id@),
    ensures
        after_insert(table, insert_row(j)) matches Some(t1) && after_update(t1, update_values(j))
            == t1 && t1[j.id@] == insert_row(j),
{
    lemma_row_columns(j);
    let t1 = table.insert(j.id@, insert_row(j));
    assert(insert_row(j).take(10).push(insert_row(j)[10]) =~= insert_row(j));
    lemma_resync_changes_nothing(t1, j, insert_row(j)[10]);
}

/// What the insert statement does to the stored requests (rows of column
/// values keyed by id): it adds the row under its id, and fails (`None`)
/// when the id is already taken.
pub open spec fn after_insert(
    table: Map<Seq<char>, Seq<Seq<char>>>,
    row: Seq<Seq<char>>,
) -> Option<Map<Seq<char>, Seq<Seq<char>>>> {
    if table.contains_key(row[0]) {
        None
    } else {
        Some(table.insert(row[0], row))
    }
}

/// What the update statement does: the row with the bound id gets the bound
/// columns and keeps its status; without such a row nothing changes.
pub open spec fn after_update(
    table: Map<Seq<char>, Seq<Seq<char>>>,
    values: Seq<Seq<char>>,
) -> Map<Seq<char>, Seq<Seq<char>>> {
    if table.contains_key(values[0]) {
        table.insert(values[0], values.push(table[values[0]][10]))
    } else {
        table
    }
}

/// The stored requests after running `actions` in order, or `None` when a
/// statement fails.
pub open spec fn after_writes(
    table: Map<Seq<char>, Seq<Seq<char>>>,
    actions: Seq<SyncAction>,
    submissions: Seq<Jotform>,
) -> Option<Map<Seq<char>, Seq<Seq<char>>>>
    decreases actions.len(),
{
    if actions.len() == 0 {
        Some(table)
    } else {
        match after_writes(table, actions.drop_last(), submissions) {
            None => None,
            Some(t) => match actions.last() {
                SyncAction::Insert(i) => after_insert(t, insert_row(submissions[i as int])),
                SyncAction::Update(i) => Some(after_update(t, update_values(submissions[i as int]))),
            },
        }
    }
}

/// `id` is the id of one of the first `k` submissions.
pub open spec fn among_first(submissions: Seq<Jotform>, k: int, id: Seq<char>) -> bool {
    exists|i: int| 0 <= i < k && (#[trigger] submissions[i]).id@ == id
}

/// Submission `i` is the last of the first `k` with its id.
pub open spec fn last_among_first(submissions: Seq<Jotform>, k: int, i: int) -> bool {
    &&& 0 <= i < k
    &&& forall|j: int| i < j < k ==> (#[trigger] submissions[j]).id@ != submissions[i].id@
}

/// Among the first `k` submissions, an id that is not stored comes twice.
pub open spec fn new_id_repeats(
    table: Map<Seq<char>, Seq<Seq<char>>>,
    submissions: Seq<Jotform>,
    k: int,
) -> bool {
    exists|i: int, j: int|
        0 <= i < j < k && (#[trigger] submissions[i]).id@ == (#[trigger] submissions[j]).id@
            && !table.contains_key(submissions[i].id@)
}

/// What the stored requests hold after the first `k` writes of the plan.
pub open spec fn synced_prefix(
    table: Map<Seq<char>, Seq<Seq<char>>>,
    submissions: Seq<Jotform>,
    k: int,
    t: Map<Seq<char>, Seq<Seq<char>>>,
) -> bool {
    &&& forall|id: Seq<char>|
        #[trigger] t.contains_key(id) <==> (table.contains_key(id) || among_first(submissions, k, id))
    &&& forall|id: Seq<char>|
        table.contains_key(id) && !among_first(submissions, k, id) ==> #[trigger] t[id] == table[id]
    &&& forall|id: Seq<char>| table.contains_key(id) ==> #[trigger] t[id][10] == table[id][10]
    &&& forall|i: int|
        #[trigger] last_among_first(submissions, k, i) ==> {
            let id = submissions[i].id@;
            if table.contains_key(id) {
                t[id] == update_values(submissions[i]).push(table[id][10])
            } else {
                t[id] == insert_row(submissions[i])
            }
        }
}

proof fn lemma_sync_prefix(
    table: Map<Seq<char>, Seq<Seq<char>>>,
    submissions: Seq<Jotform>,
    existing_ids: Seq<String>,
    k: int,
)
    requires
        0 <= k <= submissions.len() <= usize::MAX,
        forall|id: Seq<char>| #[trigger] table.contains_key(id) <==> id_known(existing_ids, id),
    ensures
        after_writes(table, sync_plan(submissions, existing_ids).take(k), submissions) is None
            <==> new_id_repeats(table, submissions, k),
        after_writes(table, sync_plan(submissions, existing_ids).take(k), submissions) matches Some(
            t,
        ) ==> synced_prefix(table, submissions, k, t),
    decreases k,
{
    let plan = sync_plan(submissions, existing_ids);
    if k == 0 {
        assert(plan.take(0).len() == 0);
        assert(!new_id_repeats(table, submissions, 0));
        let t = table;
        assert forall|id: Seq<char>| #[trigger]
            t.contains_key(id) <==> (table.contains_key(id) || among_first(submissions, 0, id)) by {
        }
        assert forall|id: Seq<char>|
            table.contains_key(id) && !among_first(submissions, 0, id) implies #[trigger] t[id]
            == table[id] by {}
    } else {
        lemma_sync_prefix(table, submissions, existing_ids, k - 1);
        let before = after_writes(table, plan.take(k - 1), submissions);
        assert(plan.take(k).drop_last() =~= plan.take(k - 1));
        assert(plan.take(k).last() == plan[k - 1]);
        let sub = submissions[k - 1];
        let id = sub.id@;
        assert(insert_row(sub)[0] == id);
        assert(update_values(sub)[0] == id);
        // new_id_repeats at k versus k - 1
        assert(new_id_repeats(table, submissions, k - 1) ==> new_id_repeats(table, submissions, k))
            by {
            if new_id_repeats(table, submissions, k - 1) {
                let (i, j) = choose|i: int, j: int|
                    0 <= i < j < k - 1 && (#[trigger] submissions[i]).id@ == (
                    #[trigger] submissions[j]).id@ && !table.contains_key(submissions[i].id@);
                assert(submissions[i].id@ == submissions[j].id@);
            }
        }
        assert(new_id_repeats(table, submissions, k) ==> (new_id_repeats(table, submissions, k - 1)
            || (!table.contains_key(id) && among_first(submissions, k - 1, id)))) by {
            if new_id_repeats(table, submissions, k) {
                let (i, j) = choose|i: int, j: int|
                    0 <= i < j < k && (#[trigger] submissions[i]).id@ == (
                    #[trigger] submissions[j]).id@ && !table.contains_key(submissions[i].id@);
                if j < k - 1 {
                    assert(submissions[i].id@ == submissions[j].id@);
                    assert(new_id_repeats(table, submissions, k - 1));
                } else {
                    assert(submissions[i].id@ == id);
                    assert(among_first(submissions, k - 1, id));
                }
            }
        }
        assert((!table.contains_key(id) && among_first(submissions, k - 1, id)) ==> new_id_repeats(
            table,
            submissions,
            k,
        )) by {
            if !table.contains_key(id) && among_first(submissions, k - 1, id) {
                let i = choose|i: int| 0 <= i < k - 1 && (#[trigger] submissions[i]).id@ == id;
                assert(submissions[i].id@ == submissions[k - 1].id@);
            }
        }
        match before {
            None => {},
            Some(prev) => {
                assert(among_first(submissions, k - 1, id) ==> among_first(submissions, k, id)) by {
                    if among_first(submissions, k - 1, id) {
                        let i = choose|i: int| 0 <= i < k - 1 && (#[trigger] submissions[i]).id@ == id;
                        assert(submissions[i].id@ == id);
                    }
                }
                assert forall|x: Seq<char>|
                    among_first(submissions, k, x) implies (x == id || among_first(
                        submissions,
                        k - 1,
                        x,
                    )) by {
                    let i = choose|i: int| 0 <= i < k && (#[trigger] submissions[i]).id@ == x;
                    if i < k - 1 {
                        assert(submissions[i].id@ == x);
                    }
                }
                assert forall|x: Seq<char>|
                    among_first(submissions, k - 1, x) implies among_first(submissions, k, x) by {
                    let i = choose|i: int| 0 <= i < k - 1 && (#[trigger] submissions[i]).id@ == x;
                    assert(submissions[i].id@ == x);
                }
                assert(among_first(submissions, k, id)) by {
                    assert(submissions[k - 1].id@ == id);
                }
                if table.contains_key(id) {
                    assert(plan[k - 1] == SyncAction::Update((k - 1) as usize));
                    assert(prev.contains_key(id));
                    let t = after_update(prev, update_values(sub));
                    assert(t == prev.insert(id, update_values(sub).push(table[id][10])));
                    assert forall|i: int| #[trigger]
                        last_among_first(submissions, k, i) implies {
                        let y = submissions[i].id@;
                        if table.contains_key(y) {
                            t[y] == update_values(submissions[i]).push(table[y][10])
                        } else {
                            t[y] == insert_row(submissions[i])
                        }
                    } by {
                        if i < k - 1 {
                            assert(submissions[k - 1].id@ != submissions[i].id@);
                            assert(last_among_first(submissions, k - 1, i));
                        }
                    }
                    assert forall|x: Seq<char>|
                        table.contains_key(x) && !among_first(submissions, k, x) implies #[trigger] t[x]
                        == table[x] by {}
                    assert forall|x: Seq<char>| table.contains_key(x) implies #[trigger] t[x][10]
                        == table[x][10] by {
                        if x == id {
                            assert(update_values(sub).len() == 10);
                        }
                    }
                    assert forall|x: Seq<char>| #[trigger]
                        t.contains_key(x) <==> (table.contains_key(x) || among_first(submissions, k, x)) by {
                    }
                    assert(synced_prefix(table, submissions, k, t));
                } else {
                    assert(plan[k - 1] == SyncAction::Insert((k - 1) as usize));
                    if !among_first(submissions, k - 1, id) {
                        assert(!prev.contains_key(id));
                        let t = prev.insert(id, insert_row(sub));
                        assert forall|i: int| #[trigger]
                            last_among_first(submissions, k, i) implies {
                            let y = submissions[i].id@;
                            if table.contains_key(y) {
                                t[y] == update_values(submissions[i]).push(table[y][10])
                            } else {
                                t[y] == insert_row(submissions[i])
                            }
                        } by {
                            if i < k - 1 {
                                assert(submissions[k - 1].id@ != submissions[i].id@);
                                assert(last_among_first(submissions, k - 1, i));
                            }
                        }
                        assert forall|x: Seq<char>|
                            table.contains_key(x) && !among_first(submissions, k, x) implies #[trigger] t[x]
                            == table[x] by {}
                        assert forall|x: Seq<char>| table.contains_key(x) implies #[trigger] t[x][10]
                            == table[x][10] by {}
                        assert forall|x: Seq<char>| #[trigger]
                            t.contains_key(x) <==> (table.contains_key(x) || among_first(
                                submissions,
                                k,
                                x,
                            )) by {}
                        assert(synced_prefix(table, submissions, k, t));
                    } else {
                        assert(prev.contains_key(id));
                    }
                }
            },
        }
    }
}

/// Running the plan against the stored requests, when the stored ids are the
/// ones the plan was made from, fails exactly when an id that is not stored
/// comes twice in the batch (its second insertion breaks the key). Otherwise
/// it leaves: every stored and every fetched id present and no other; every
/// stored status as it was (a status is never overwritten); stored requests
/// that were not fetched unchanged; a stored request that was fetched with the
/// columns of its last fetched version; and a new request as fetched, with
/// status "Open".
pub proof fn lemma_sync_keeps_statuses(
    table: Map<Seq<char>, Seq<Seq<char>>>,
    submissions: Seq<Jotform>,
    existing_ids: Seq<String>,
)
    requires
        submissions.len() <= usize::MAX,
        forall|id: Seq<char>| #[trigger] table.contains_key(id) <==> id_known(existing_ids, id),
    ensures
        after_writes(table, sync_plan(submissions, existing_ids), submissions) is None
            <==> new_id_repeats(table, submissions, submissions.len() as int),
        after_writes(table, sync_plan(submissions, existing_ids), submissions) matches Some(t) ==> {
            &&& forall|id: Seq<char>|
                #[trigger] t.contains_key(id) <==> (table.contains_key(id) || among_first(
                    submissions,
                    submissions.len() as int,
                    id,
                ))
            &&& forall|id: Seq<char>|
                table.contains_key(id) ==> #[trigger] t[id][10] == table[id][10]
            &&& forall|id: Seq<char>|
                table.contains_key(id) && !among_first(submissions, submissions.len() as int, id)
                    ==> #[trigger] t[id] == table[id]
            &&& forall|i: int|
                #[trigger] last_among_first(submissions, submissions.len() as int, i)
                    && table.contains_key(submissions[i].id@)
                    ==> t[submissions[i].id@].take(10) == update_values(submissions[i])
            &&& forall|i: int|
                0 <= i < submissions.len() && !table.contains_key((#[trigger] submissions[i]).id@)
                    ==> t[submissions[i].id@] == insert_row(submissions[i])
                    && t[submissions[i].id@][10] == "Open"@
        },
{
    let n = submissions.len() as int;
    let plan = sync_plan(submissions, existing_ids);
    lemma_sync_prefix(table, submissions, existing_ids, n);
    assert(plan.take(n) =~= plan);
    match after_writes(table, plan, submissions) {
        None => {},
        Some(t) => {
            assert forall|i: int|
                #[trigger] last_among_first(submissions, n, i) && table.contains_key(
                    submissions[i].id@,
                ) implies t[submissions[i].id@].take(10) == update_values(submissions[i]) by {
                let id = submissions[i].id@;
                assert(update_values(submissions[i]).push(table[id][10]).take(10)
                    =~= update_values(submissions[i]));
            }
            assert forall|i: int|
                0 <= i < submissions.len() && !table.contains_key((#[trigger] submissions[i]).id@)
                    implies t[submissions[i].id@] == insert_row(submissions[i])
                && t[submissions[i].id@][10] == "Open"@ by {
                assert(last_among_first(submissions, n, i)) by {
                    assert forall|j: int| i < j < n implies (#[trigger] submissions[j]).id@
                        != submissions[i].id@ by {
                        if submissions[j].id@ == submissions[i].id@ {
                            assert(new_id_repeats(table, submissions, n));
                        }
                    }
                }
            }
        },
    }
}

} // verus!
