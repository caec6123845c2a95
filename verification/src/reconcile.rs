//! Reconciliation of a local record snapshot with a remote snapshot.
//!
//! The reconciler is a pure function of (local snapshot, remote
//! snapshot, locally-deleted ids) to (next local snapshot, outbound
//! push operations). Per record id:
//!
//! * only local and `pending_sync`: kept, pushed as a creation;
//! * only local and not pending: dropped (the record was never edited
//!   locally, so the remote deletion is authoritative);
//! * only remote, id locally deleted: the deletion is pushed upstream
//!   and the record stays out of the merged set;
//! * only remote otherwise: adopted with `pending_sync` false;
//! * both present, local not pending: the remote record wins
//!   unconditionally;
//! * both present, local pending: the local record wins and is pushed
//!   as an update when its `updated_at` is missing, the remote one is
//!   missing, or the local one is at least the remote one; a strictly
//!   newer remote wins, and the local edit is dropped with
//!   `pending_sync` cleared (last-writer-wins on timestamp).

use vstd::prelude::*;

use crate::record::{adopt, recs_view, strs_view, Record, RecordView};
use crate::timestamp::{lex_ge, timestamp_ge};

verus! {

/// An outbound change to push to the remote provider.
#[derive(Clone, Debug, PartialEq)]
pub enum PushOp {
    Create(Record),
    Update(Record),
    Delete(String),
}

#[verifier::ext_equal]
pub ghost enum PushOpView {
    Create(RecordView),
    Update(RecordView),
    Delete(Seq<char>),
}

impl View for PushOp {
    type V = PushOpView;

    open spec fn view(&self) -> PushOpView {
        match self {
            PushOp::Create(r) => PushOpView::Create(r@),
            PushOp::Update(r) => PushOpView::Update(r@),
            PushOp::Delete(id) => PushOpView::Delete(id@),
        }
    }
}

/// View of a push-operation sequence, operation by operation.
pub open spec fn ops_view(s: Seq<PushOp>) -> Seq<PushOpView> {
    s.map_values(|op: PushOp| op@)
}

/// The record id an operation refers to.
pub open spec fn op_id(op: PushOpView) -> Seq<char> {
    match op {
        PushOpView::Create(r) => r.id,
        PushOpView::Update(r) => r.id,
        PushOpView::Delete(id) => id,
    }
}

/// Some record in `s` carries the id.
pub open spec fn contains_id(s: Seq<RecordView>, id: Seq<char>) -> bool {
    exists|i: int| 0 <= i < s.len() && s[i].id == id
}

/// The first record in `s` carrying the id, if any.
pub open spec fn find_rec(s: Seq<RecordView>, id: Seq<char>) -> Option<RecordView>
    decreases s.len(),
{
    if s.len() == 0 {
        None
    } else if s[0].id == id {
        Some(s[0])
    } else {
        find_rec(s.drop_first(), id)
    }
}

/// No two records in `s` share an id (the cache invariant).
pub open spec fn unique_ids(s: Seq<RecordView>) -> bool {
    forall|i: int, j: int| 0 <= i < j < s.len() ==> s[i].id != s[j].id
}

/// The conflict policy for a record pending locally and present
/// remotely: the local edit wins unless the remote timestamp is
/// strictly newer.
pub open spec fn local_wins(l: RecordView, r: RecordView) -> bool {
    l.updated_at is None || r.updated_at is None || lex_ge(l.updated_at->0, r.updated_at->0)
}

/// Contribution of one local record to the merged set.
pub open spec fn merge_entry(lr: RecordView, r: Seq<RecordView>) -> Seq<RecordView> {
    match find_rec(r, lr.id) {
        None => if lr.pending_sync {
            seq![lr]
        } else {
            seq![]
        },
        Some(rr) => if !lr.pending_sync {
            seq![adopt(rr)]
        } else if local_wins(lr, rr) {
            seq![lr]
        } else {
            seq![adopt(rr)]
        },
    }
}

/// Contribution of one local record to the outbound operations.
pub open spec fn push_entry(lr: RecordView, r: Seq<RecordView>) -> Seq<PushOpView> {
    match find_rec(r, lr.id) {
        None => if lr.pending_sync {
            seq![PushOpView::Create(lr)]
        } else {
            seq![]
        },
        Some(rr) => if lr.pending_sync && local_wins(lr, rr) {
            seq![PushOpView::Update(lr)]
        } else {
            seq![]
        },
    }
}

/// Contribution of one remote record to the merged set, given the
/// local snapshot and the locally-deleted ids.
pub open spec fn adopt_entry(rr: RecordView, l: Seq<RecordView>, d: Seq<Seq<char>>) -> Seq<
    RecordView,
> {
    if contains_id(l, rr.id) {
        seq![]
    } else if d.contains(rr.id) {
        seq![]
    } else {
        seq![adopt(rr)]
    }
}

/// Contribution of one remote record to the outbound operations.
pub open spec fn delete_entry(rr: RecordView, l: Seq<RecordView>, d: Seq<Seq<char>>) -> Seq<
    PushOpView,
> {
    if contains_id(l, rr.id) {
        seq![]
    } else if d.contains(rr.id) {
        seq![PushOpView::Delete(rr.id)]
    } else {
        seq![]
    }
}

/// Merged-set contributions of the first `n` local records.
pub open spec fn merged_local(l: Seq<RecordView>, r: Seq<RecordView>, n: int) -> Seq<RecordView>
    decreases n,
{
    if n <= 0 {
        seq![]
    } else {
        merged_local(l, r, n - 1) + merge_entry(l[n - 1], r)
    }
}

/// Push contributions of the first `n` local records.
pub open spec fn pushes_local(l: Seq<RecordView>, r: Seq<RecordView>, n: int) -> Seq<PushOpView>
    decreases n,
{
    if n <= 0 {
        seq![]
    } else {
        pushes_local(l, r, n - 1) + push_entry(l[n - 1], r)
    }
}

/// Merged-set contributions of the first `n` remote records.
pub open spec fn merged_remote(
    r: Seq<RecordView>,
    l: Seq<RecordView>,
    d: Seq<Seq<char>>,
    n: int,
) -> Seq<RecordView>
    decreases n,
{
    if n <= 0 {
        seq![]
    } else {
        merged_remote(r, l, d, n - 1) + adopt_entry(r[n - 1], l, d)
    }
}

/// Deletion contributions of the first `n` remote records.
pub open spec fn deletes_remote(
    r: Seq<RecordView>,
    l: Seq<RecordView>,
    d: Seq<Seq<char>>,
    n: int,
) -> Seq<PushOpView>
    decreases n,
{
    if n <= 0 {
        seq![]
    } else {
        deletes_remote(r, l, d, n - 1) + delete_entry(r[n - 1], l, d)
    }
}

/// The merged record set: local contributions in local order, then
/// adopted remote-only records in remote order.
pub open spec fn merged_of(l: Seq<RecordView>, r: Seq<RecordView>, d: Seq<Seq<char>>) -> Seq<
    RecordView,
> {
    merged_local(l, r, l.len() as int) + merged_remote(r, l, d, r.len() as int)
}

/// The outbound operations: creations and updates in local order,
/// then deletions in remote order.
pub open spec fn pushes_of(l: Seq<RecordView>, r: Seq<RecordView>, d: Seq<Seq<char>>) -> Seq<
    PushOpView,
> {
    pushes_local(l, r, l.len() as int) + deletes_remote(r, l, d, r.len() as int)
}

proof fn lemma_find_rec_skip(s: Seq<RecordView>, id: Seq<char>, j: int)
    requires
        0 <= j < s.len(),
        s[j].id != id,
    ensures
        find_rec(s.skip(j), id) == find_rec(s.skip(j + 1), id),
{
    assert(s.skip(j).drop_first() =~= s.skip(j + 1));
    assert(s.skip(j)[0] == s[j]);
}

/// `find_rec` returns a record exactly when one with the id is there,
/// and that record carries the id and stands in the sequence.
pub proof fn lemma_find_rec_props(s: Seq<RecordView>, id: Seq<char>)
    ensures
        (find_rec(s, id) is Some) == contains_id(s, id),
        find_rec(s, id) is Some ==> (find_rec(s, id)->0).id == id && s.contains(find_rec(s, id)->0),
    decreases s.len(),
{
    if s.len() == 0 {
    } else if s[0].id == id {
        assert(contains_id(s, id));
    } else {
        lemma_find_rec_props(s.drop_first(), id);
        if contains_id(s, id) {
            let i = choose|i: int| 0 <= i < s.len() && s[i].id == id;
            assert(i != 0);
            assert(s.drop_first()[i - 1] == s[i]);
            assert(contains_id(s.drop_first(), id));
        }
        if contains_id(s.drop_first(), id) {
            let i = choose|i: int| 0 <= i < s.drop_first().len() && s.drop_first()[i].id == id;
            assert(s[i + 1] == s.drop_first()[i]);
            assert(contains_id(s, id));
        }
        if find_rec(s, id) is Some {
            assert(s.drop_first().contains(find_rec(s, id)->0));
            let i = choose|i: int|
                0 <= i < s.drop_first().len() && s.drop_first()[i] == find_rec(s, id)->0;
            assert(s[i + 1] == s.drop_first()[i]);
            assert(s.contains(find_rec(s, id)->0));
        }
    }
}

/// Finds the first record in `v` whose id equals `id`.
fn find_by_id<'a>(v: &'a Vec<Record>, id: &String) -> (r: Option<&'a Record>)
    ensures
        match r {
            None => find_rec(recs_view(v@), id@) is None,
            Some(rec) => find_rec(recs_view(v@), id@) == Some(rec@),
        },
{
    let ghost s = recs_view(v@);
    proof {
        assert(s.skip(0) =~= s);
    }
    let mut j: usize = 0;
    while j < v.len()
        invariant
            j <= v.len(),
            s == recs_view(v@),
            s.len() == v@.len(),
            find_rec(s, id@) == find_rec(s.skip(j as int), id@),
        decreases v.len() - j,
    {
        if v[j].id == *id {
            proof {
                assert(s.skip(j as int)[0] == s[j as int]);
                assert(s[j as int] == v@[j as int]@);
            }
            return Some(&v[j]);
        }
        proof {
            assert(s[j as int] == v@[j as int]@);
            lemma_find_rec_skip(s, id@, j as int);
        }
        j = j + 1;
    }
    proof {
        assert(s.skip(j as int).len() == 0);
    }
    None
}

/// Decides whether one of the strings in `v` equals `id`.
fn contains_string(v: &Vec<String>, id: &String) -> (r: bool)
    ensures
        r == strs_view(v@).contains(id@),
{
    let ghost s = strs_view(v@);
    let mut j: usize = 0;
    while j < v.len()
        invariant
            j <= v.len(),
            s == strs_view(v@),
            s.len() == v@.len(),
            forall|k: int| 0 <= k < j ==> s[k] != id@,
        decreases v.len() - j,
    {
        if v[j] == *id {
            proof {
                assert(s[j as int] == v@[j as int]@);
            }
            return true;
        }
        proof {
            assert(s[j as int] == v@[j as int]@);
        }
        j = j + 1;
    }
    proof {
        if s.contains(id@) {
            let k = choose|k: int| 0 <= k < s.len() && s[k] == id@;
            assert(s[k] != id@);
        }
    }
    false
}

/// Decides the conflict policy on the two optional timestamps.
fn local_wins_exec(l: &Record, r: &Record) -> (w: bool)
    ensures
        w == local_wins(l@, r@),
{
    match (&l.updated_at, &r.updated_at) {
        (None, _) => true,
        (_, None) => true,
        (Some(a), Some(b)) => timestamp_ge(a.as_str(), b.as_str()),
    }
}

/// Computes the merged record set and the outbound operations for one
/// namespace, from the local snapshot, the remote snapshot, and the
/// ids deleted locally since the last cycle.
pub fn reconcile(local: &Vec<Record>, remote: &Vec<Record>, deleted: &Vec<String>) -> (res: (
    Vec<Record>,
    Vec<PushOp>,
))
    ensures
        recs_view(res.0@) == merged_of(recs_view(local@), recs_view(remote@), strs_view(deleted@)),
        ops_view(res.1@) == pushes_of(recs_view(local@), recs_view(remote@), strs_view(deleted@)),
        unique_ids(recs_view(local@)) && unique_ids(recs_view(remote@)) ==> unique_ids(
            recs_view(res.0@),
        ),
{
    let ghost lv = recs_view(local@);
    let ghost rv = recs_view(remote@);
    let ghost dv = strs_view(deleted@);
    let mut merged: Vec<Record> = Vec::new();
    let mut ops: Vec<PushOp> = Vec::new();
    let mut i: usize = 0;
    while i < local.len()
        invariant
            i <= local.len(),
            lv == recs_view(local@),
            rv == recs_view(remote@),
            dv == strs_view(deleted@),
            lv.len() == local@.len(),
            recs_view(merged@) =~= merged_local(lv, rv, i as int),
            ops_view(ops@) =~= pushes_local(lv, rv, i as int),
        decreases local.len() - i,
    {
        let lr = &local[i];
        proof {
            assert(lv[i as int] == local@[i as int]@);
        }
        let ghost old_merged = merged@;
        let ghost old_ops = ops@;
        match find_by_id(remote, &lr.id) {
            None => {
                if lr.pending_sync {
                    merged.push(lr.duplicate());
                    ops.push(PushOp::Create(lr.duplicate()));
                }
            },
            Some(rr) => {
                if !lr.pending_sync {
                    merged.push(rr.adopted());
                } else if local_wins_exec(lr, rr) {
                    merged.push(lr.duplicate());
                    ops.push(PushOp::Update(lr.duplicate()));
                } else {
                    merged.push(rr.adopted());
                }
            },
        }
        proof {
            assert(recs_view(merged@) =~= recs_view(old_merged) + merge_entry(lv[i as int], rv));
            assert(ops_view(ops@) =~= ops_view(old_ops) + push_entry(lv[i as int], rv));
        }
        i = i + 1;
    }
    let mut j: usize = 0;
    while j < remote.len()
        invariant
            j <= remote.len(),
            lv == recs_view(local@),
            rv == recs_view(remote@),
            dv == strs_view(deleted@),
            rv.len() == remote@.len(),
            recs_view(merged@) =~= merged_local(lv, rv, local@.len() as int) + merged_remote(
                rv,
                lv,
                dv,
                j as int,
            ),
            ops_view(ops@) =~= pushes_local(lv, rv, local@.len() as int) + deletes_remote(
                rv,
                lv,
                dv,
                j as int,
            ),
        decreases remote.len() - j,
    {
        let rr = &remote[j];
        proof {
            assert(rv[j as int] == remote@[j as int]@);
        }
        let ghost old_merged = merged@;
        let ghost old_ops = ops@;
        let in_local = match find_by_id(local, &rr.id) {
            Some(_) => true,
            None => false,
        };
        proof {
            lemma_find_rec_props(lv, rr.id@);
        }
        if !in_local {
            if contains_string(deleted, &rr.id) {
                ops.push(PushOp::Delete(rr.id.clone()));
            } else {
                merged.push(rr.adopted());
            }
        }
        proof {
            assert(recs_view(merged@) =~= recs_view(old_merged) + adopt_entry(rv[j as int], lv, dv));
            assert(ops_view(ops@) =~= ops_view(old_ops) + delete_entry(rv[j as int], lv, dv));
        }
        j = j + 1;
    }
    proof {
        assert(recs_view(merged@) =~= merged_of(lv, rv, dv));
        assert(ops_view(ops@) =~= pushes_of(lv, rv, dv));
        if unique_ids(lv) && unique_ids(rv) {
            lemma_reconcile_unique(lv, rv, dv);
        }
    }
    (merged, ops)
}

/// Reconciliation preserves the cache invariant: when both snapshots
/// carry unique ids, so does the merged set.
pub proof fn lemma_reconcile_unique(l: Seq<RecordView>, r: Seq<RecordView>, d: Seq<Seq<char>>)
    requires
        unique_ids(l),
        unique_ids(r),
    ensures
        unique_ids(merged_of(l, r, d)),
{
    lemma_merged_local_ids(l, r, l.len() as int);
    lemma_merged_remote_ids(r, l, d, r.len() as int);
    let a = merged_local(l, r, l.len() as int);
    let b = merged_remote(r, l, d, r.len() as int);
    let m = merged_of(l, r, d);
    assert forall|i: int, j: int| 0 <= i < j < m.len() implies m[i].id != m[j].id by {
        if j < a.len() {
            assert(m[i] == a[i]);
            assert(m[j] == a[j]);
        } else if i >= a.len() {
            assert(m[i] == b[i - a.len()]);
            assert(m[j] == b[j - a.len()]);
        } else {
            assert(m[i] == a[i]);
            assert(m[j] == b[j - a.len()]);
            assert(contains_id(l, m[i].id));
        }
    }
}

/// Every record contributed by the local pass carries the id of the
/// local record it came from, and the pass keeps distinct local ids
/// distinct.
proof fn lemma_merged_local_ids(l: Seq<RecordView>, r: Seq<RecordView>, n: int)
    requires
        n <= l.len(),
        unique_ids(l),
    ensures
        forall|m: int|
            0 <= m < merged_local(l, r, n).len() ==> exists|k: int|
                0 <= k < n && #[trigger] merged_local(l, r, n)[m].id == l[k].id,
        forall|m: int| 0 <= m < merged_local(l, r, n).len() ==> contains_id(
            l,
            #[trigger] merged_local(l, r, n)[m].id,
        ),
        unique_ids(merged_local(l, r, n)),
    decreases n,
{
    if n <= 0 {
    } else {
        lemma_merged_local_ids(l, r, n - 1);
        lemma_find_rec_props(r, l[n - 1].id);
        let prev = merged_local(l, r, n - 1);
        let e = merge_entry(l[n - 1], r);
        let cur = merged_local(l, r, n);
        assert(forall|m: int| 0 <= m < e.len() ==> #[trigger] e[m].id == l[n - 1].id);
        assert forall|m: int| 0 <= m < cur.len() implies exists|k: int|
            0 <= k < n && #[trigger] cur[m].id == l[k].id by {
            if m < prev.len() {
                assert(cur[m] == prev[m]);
                let k = choose|k: int| 0 <= k < n - 1 && prev[m].id == l[k].id;
                assert(cur[m].id == l[k].id);
            } else {
                assert(cur[m] == e[m - prev.len()]);
                assert(cur[m].id == l[n - 1].id);
            }
        }
        assert forall|m: int| 0 <= m < cur.len() implies contains_id(
            l,
            #[trigger] cur[m].id,
        ) by {
            let k = choose|k: int| 0 <= k < n && cur[m].id == l[k].id;
            assert(0 <= k < l.len() && l[k].id == cur[m].id);
        }
        assert forall|i: int, j: int| 0 <= i < j < cur.len() implies cur[i].id != cur[j].id by {
            if j < prev.len() {
            } else {
                assert(cur[j].id == l[n - 1].id);
                if i < prev.len() {
                    assert(cur[i] == prev[i]);
                    let k = choose|k: int| 0 <= k < n - 1 && prev[i].id == l[k].id;
                    assert(l[k].id != l[n - 1].id);
                }
            }
        }
    }
}

/// Every record contributed by the remote pass is an adopted remote
/// record whose id is neither local nor deleted, and distinct remote
/// ids stay distinct.
proof fn lemma_merged_remote_ids(r: Seq<RecordView>, l: Seq<RecordView>, d: Seq<Seq<char>>, n: int)
    requires
        n <= r.len(),
        unique_ids(r),
    ensures
        forall|m: int|
            0 <= m < merged_remote(r, l, d, n).len() ==> exists|k: int|
                0 <= k < n && #[trigger] merged_remote(r, l, d, n)[m] == adopt(r[k])
                    && !contains_id(l, r[k].id) && !d.contains(r[k].id),
        unique_ids(merged_remote(r, l, d, n)),
    decreases n,
{
    if n <= 0 {
    } else {
        lemma_merged_remote_ids(r, l, d, n - 1);
        let prev = merged_remote(r, l, d, n - 1);
        let e = adopt_entry(r[n - 1], l, d);
        let cur = merged_remote(r, l, d, n);
        assert forall|m: int| 0 <= m < cur.len() implies exists|k: int|
            0 <= k < n && #[trigger] cur[m] == adopt(r[k]) && !contains_id(l, r[k].id)
                && !d.contains(r[k].id) by {
            if m < prev.len() {
                assert(cur[m] == prev[m]);
                let k = choose|k: int|
                    0 <= k < n - 1 && prev[m] == adopt(r[k]) && !contains_id(l, r[k].id)
                        && !d.contains(r[k].id);
                assert(0 <= k < n && cur[m] == adopt(r[k]) && !contains_id(l, r[k].id)
                    && !d.contains(r[k].id));
            } else {
                assert(cur[m] == e[m - prev.len()]);
                assert(cur[m] == adopt(r[n - 1]));
            }
        }
        assert forall|i: int, j: int| 0 <= i < j < cur.len() implies cur[i].id != cur[j].id by {
            let ki = choose|k: int|
                0 <= k < n && cur[i] == adopt(r[k]) && !contains_id(l, r[k].id) && !d.contains(
                    r[k].id,
                );
            let kj = choose|k: int|
                0 <= k < n && cur[j] == adopt(r[k]) && !contains_id(l, r[k].id) && !d.contains(
                    r[k].id,
                );
            if i < prev.len() && j >= prev.len() {
                assert(cur[j] == adopt(r[n - 1]));
            }
            if ki != kj {
                assert(r[ki].id != r[kj].id);
            } else {
                if i < prev.len() && j >= prev.len() {
                    let kp = choose|k: int|
                        0 <= k < n - 1 && prev[i] == adopt(r[k]) && !contains_id(l, r[k].id)
                            && !d.contains(r[k].id);
                    assert(cur[i].id == r[kp].id);
                    assert(cur[j].id == r[n - 1].id);
                    assert(r[kp].id != r[n - 1].id);
                } else if j < prev.len() {
                    assert(prev[i].id != prev[j].id);
                } else {
                    assert(i >= prev.len() && j >= prev.len());
                    assert(e.len() <= 1);
                    assert(false);
                }
            }
        }
    }
}

/// The record set after a set of pushes was confirmed: confirmed
/// records have `pending_sync` cleared, all others are untouched.
/// `pending_sync` is cleared only here or when a remote record is
/// adopted, never speculatively.
pub open spec fn spec_clear_confirmed(s: Seq<RecordView>, c: Seq<Seq<char>>) -> Seq<RecordView> {
    s.map_values(
        |x: RecordView|
            if c.contains(x.id) {
                adopt(x)
            } else {
                x
            },
    )
}

/// Clears the pending marker of every record whose push was
/// confirmed.
pub fn clear_confirmed(records: &Vec<Record>, confirmed: &Vec<String>) -> (r: Vec<Record>)
    ensures
        recs_view(r@) == spec_clear_confirmed(recs_view(records@), strs_view(confirmed@)),
{
    let ghost lv = recs_view(records@);
    let ghost cv = strs_view(confirmed@);
    let mut out: Vec<Record> = Vec::new();
    let mut i: usize = 0;
    while i < records.len()
        invariant
            i <= records.len(),
            lv == recs_view(records@),
            cv == strs_view(confirmed@),
            lv.len() == records@.len(),
            out@.len() == i,
            forall|k: int| 0 <= k < i ==> recs_view(out@)[k] == spec_clear_confirmed(lv, cv)[k],
        decreases records.len() - i,
    {
        proof {
            assert(lv[i as int] == records@[i as int]@);
        }
        if contains_string(confirmed, &records[i].id) {
            out.push(records[i].adopted());
        } else {
            out.push(records[i].duplicate());
        }
        i = i + 1;
    }
    proof {
        assert(recs_view(out@) =~= spec_clear_confirmed(lv, cv));
    }
    out
}

/// Once every pending record's push was confirmed, the set is
/// settled: no record is pending any more, so by the quiescence law a
/// further reconciliation against a snapshot pushes nothing.
pub proof fn lemma_confirmed_cycle_settles(s: Seq<RecordView>, c: Seq<Seq<char>>)
    requires
        forall|i: int| 0 <= i < s.len() ==> (s[i].pending_sync ==> c.contains(s[i].id)),
    ensures
        forall|i: int| 0 <= i < spec_clear_confirmed(s, c).len() ==> !spec_clear_confirmed(
            s,
            c,
        )[i].pending_sync,
{
    assert forall|i: int| 0 <= i < spec_clear_confirmed(s, c).len() implies !spec_clear_confirmed(
        s,
        c,
    )[i].pending_sync by {
        assert(spec_clear_confirmed(s, c)[i] == if c.contains(s[i].id) {
            adopt(s[i])
        } else {
            s[i]
        });
    }
}

proof fn lemma_local_fold_congruent(
    s1: Seq<RecordView>,
    s2: Seq<RecordView>,
    r: Seq<RecordView>,
    n: int,
)
    requires
        n <= s1.len(),
        n <= s2.len(),
        forall|k: int| 0 <= k < n ==> s1[k] == s2[k],
    ensures
        merged_local(s1, r, n) == merged_local(s2, r, n),
        pushes_local(s1, r, n) == pushes_local(s2, r, n),
    decreases n,
{
    if n > 0 {
        lemma_local_fold_congruent(s1, s2, r, n - 1);
    }
}

proof fn lemma_local_fold_concat(a: Seq<RecordView>, b: Seq<RecordView>, r: Seq<RecordView>)
    ensures
        merged_local(a + b, r, (a + b).len() as int) =~= merged_local(a, r, a.len() as int)
            + merged_local(b, r, b.len() as int),
        pushes_local(a + b, r, (a + b).len() as int) =~= pushes_local(a, r, a.len() as int)
            + pushes_local(b, r, b.len() as int),
    decreases b.len(),
{
    if b.len() == 0 {
        assert(a + b =~= a);
        assert(merged_local(b, r, 0) =~= Seq::<RecordView>::empty());
        assert(pushes_local(b, r, 0) =~= Seq::<PushOpView>::empty());
    } else {
        let b0 = b.drop_last();
        lemma_local_fold_concat(a, b0, r);
        let n = (a + b).len() as int;
        assert((a + b)[n - 1] == b.last());
        assert(forall|k: int| 0 <= k < n - 1 ==> (a + b)[k] == (a + b0)[k]);
        lemma_local_fold_congruent(a + b, a + b0, r, n - 1);
        assert(forall|k: int| 0 <= k < b.len() - 1 ==> b[k] == b0[k]);
        lemma_local_fold_congruent(b, b0, r, b.len() - 1);
        assert(merged_local(b, r, b.len() as int) == merged_local(b0, r, b0.len() as int)
            + merge_entry(b.last(), r));
        assert(pushes_local(b, r, b.len() as int) == pushes_local(b0, r, b0.len() as int)
            + push_entry(b.last(), r));
    }
}

/// A record the merge produced survives a second merge against the
/// same remote snapshot unchanged, and re-offers the same operation.
proof fn lemma_entry_stable(lr: RecordView, r: Seq<RecordView>)
    ensures
        merged_local(merge_entry(lr, r), r, merge_entry(lr, r).len() as int) =~= merge_entry(lr, r),
        pushes_local(merge_entry(lr, r), r, merge_entry(lr, r).len() as int) =~= push_entry(lr, r),
{
    lemma_find_rec_props(r, lr.id);
    let e = merge_entry(lr, r);
    if e.len() == 0 {
        assert(merged_local(e, r, 0) =~= Seq::<RecordView>::empty());
        assert(pushes_local(e, r, 0) =~= Seq::<PushOpView>::empty());
    } else {
        let x = e[0];
        assert(merged_local(e, r, 1) == merged_local(e, r, 0) + merge_entry(x, r));
        assert(pushes_local(e, r, 1) == pushes_local(e, r, 0) + push_entry(x, r));
        match find_rec(r, lr.id) {
            None => {
                assert(x == lr);
            },
            Some(rr) => {
                assert(rr.id == lr.id);
                if !lr.pending_sync {
                    assert(x == adopt(rr));
                    assert(x.id == lr.id);
                    assert(find_rec(r, x.id) == Some(rr));
                    assert(merge_entry(x, r) == seq![adopt(rr)]);
                } else if local_wins(lr, rr) {
                    assert(x == lr);
                } else {
                    assert(x == adopt(rr));
                    assert(x.id == lr.id);
                    assert(find_rec(r, x.id) == Some(rr));
                    assert(merge_entry(x, r) == seq![adopt(rr)]);
                }
            },
        }
    }
}

/// An adopted remote record, merged again against the same remote
/// snapshot, survives unchanged and produces no operation.
proof fn lemma_adopted_stable(r: Seq<RecordView>, k: int)
    requires
        unique_ids(r),
        0 <= k < r.len(),
    ensures
        merge_entry(adopt(r[k]), r) =~= seq![adopt(r[k])],
        push_entry(adopt(r[k]), r) =~= Seq::<PushOpView>::empty(),
{
    let x = adopt(r[k]);
    assert(x.id == r[k].id);
    assert(contains_id(r, x.id));
    lemma_find_rec_props(r, x.id);
    let rr = find_rec(r, x.id)->0;
    assert(r.contains(rr));
    let m = choose|m: int| 0 <= m < r.len() && r[m] == rr;
    if m != k {
        assert(r[m].id != r[k].id);
        assert(false);
    }
    assert(rr == r[k]);
    assert(!x.pending_sync);
    assert(merge_entry(x, r) == seq![adopt(rr)]);
    assert(adopt(rr) == x);
}

/// The local pass of the merge is stable: merging its output against
/// the same remote snapshot reproduces that output and the same
/// operations.
proof fn lemma_local_stable(l: Seq<RecordView>, r: Seq<RecordView>, n: int)
    requires
        n <= l.len(),
    ensures
        merged_local(merged_local(l, r, n), r, merged_local(l, r, n).len() as int) =~= merged_local(
            l,
            r,
            n,
        ),
        pushes_local(merged_local(l, r, n), r, merged_local(l, r, n).len() as int) =~= pushes_local(
            l,
            r,
            n,
        ),
    decreases n,
{
    if n <= 0 {
        assert(merged_local(l, r, n) =~= Seq::<RecordView>::empty());
        assert(merged_local(Seq::<RecordView>::empty(), r, 0) =~= Seq::<RecordView>::empty());
        assert(pushes_local(Seq::<RecordView>::empty(), r, 0) =~= Seq::<PushOpView>::empty());
        assert(pushes_local(l, r, n) =~= Seq::<PushOpView>::empty());
    } else {
        lemma_local_stable(l, r, n - 1);
        let m0 = merged_local(l, r, n - 1);
        let e = merge_entry(l[n - 1], r);
        lemma_local_fold_concat(m0, e, r);
        lemma_entry_stable(l[n - 1], r);
        assert(merged_local(l, r, n) == m0 + e);
        assert(merged_local(m0 + e, r, (m0 + e).len() as int) =~= m0 + e);
        assert(pushes_local(m0 + e, r, (m0 + e).len() as int) =~= pushes_local(l, r, n - 1)
            + push_entry(l[n - 1], r));
    }
}

/// The remote pass of the merge is stable: merging the adopted
/// records against the same remote snapshot reproduces them and
/// produces no operation.
proof fn lemma_remote_stable(r: Seq<RecordView>, l: Seq<RecordView>, d: Seq<Seq<char>>, n: int)
    requires
        unique_ids(r),
        n <= r.len(),
    ensures
        merged_local(merged_remote(r, l, d, n), r, merged_remote(r, l, d, n).len() as int)
            =~= merged_remote(r, l, d, n),
        pushes_local(merged_remote(r, l, d, n), r, merged_remote(r, l, d, n).len() as int)
            =~= Seq::<PushOpView>::empty(),
    decreases n,
{
    if n <= 0 {
        assert(merged_remote(r, l, d, n) =~= Seq::<RecordView>::empty());
        assert(merged_local(Seq::<RecordView>::empty(), r, 0) =~= Seq::<RecordView>::empty());
        assert(pushes_local(Seq::<RecordView>::empty(), r, 0) =~= Seq::<PushOpView>::empty());
    } else {
        lemma_remote_stable(r, l, d, n - 1);
        let b0 = merged_remote(r, l, d, n - 1);
        let e = adopt_entry(r[n - 1], l, d);
        lemma_local_fold_concat(b0, e, r);
        assert(merged_remote(r, l, d, n) == b0 + e);
        if e.len() == 0 {
            assert(merged_local(e, r, 0) =~= Seq::<RecordView>::empty());
            assert(pushes_local(e, r, 0) =~= Seq::<PushOpView>::empty());
        } else {
            let x = e[0];
            assert(x == adopt(r[n - 1]));
            lemma_adopted_stable(r, n - 1);
            assert(merged_local(e, r, 1) == merged_local(e, r, 0) + merge_entry(x, r));
            assert(pushes_local(e, r, 1) == pushes_local(e, r, 0) + push_entry(x, r));
            assert(merged_local(e, r, 1) =~= e);
            assert(pushes_local(e, r, 1) =~= Seq::<PushOpView>::empty());
        }
    }
}

proof fn lemma_merged_local_includes(l: Seq<RecordView>, r: Seq<RecordView>, n: int, i: int)
    requires
        0 <= i < n <= l.len(),
    ensures
        forall|m: int| 0 <= m < merge_entry(l[i], r).len() ==> merged_local(l, r, n).contains(
            #[trigger] merge_entry(l[i], r)[m],
        ),
    decreases n,
{
    let prev = merged_local(l, r, n - 1);
    let e = merge_entry(l[n - 1], r);
    let cur = merged_local(l, r, n);
    if i == n - 1 {
        assert forall|m: int| 0 <= m < e.len() implies cur.contains(#[trigger] e[m]) by {
            assert(cur[prev.len() + m] == e[m]);
        }
    } else {
        lemma_merged_local_includes(l, r, n - 1, i);
        assert forall|m: int| 0 <= m < merge_entry(l[i], r).len() implies cur.contains(
            #[trigger] merge_entry(l[i], r)[m],
        ) by {
            let x = merge_entry(l[i], r)[m];
            let q = choose|q: int| 0 <= q < prev.len() && prev[q] == x;
            assert(cur[q] == x);
        }
    }
}

proof fn lemma_merged_remote_includes(
    r: Seq<RecordView>,
    l: Seq<RecordView>,
    d: Seq<Seq<char>>,
    n: int,
    i: int,
)
    requires
        0 <= i < n <= r.len(),
    ensures
        forall|m: int| 0 <= m < adopt_entry(r[i], l, d).len() ==> merged_remote(
            r,
            l,
            d,
            n,
        ).contains(#[trigger] adopt_entry(r[i], l, d)[m]),
    decreases n,
{
    let prev = merged_remote(r, l, d, n - 1);
    let e = adopt_entry(r[n - 1], l, d);
    let cur = merged_remote(r, l, d, n);
    if i == n - 1 {
        assert forall|m: int| 0 <= m < e.len() implies cur.contains(#[trigger] e[m]) by {
            assert(cur[prev.len() + m] == e[m]);
        }
    } else {
        lemma_merged_remote_includes(r, l, d, n - 1, i);
        assert forall|m: int| 0 <= m < adopt_entry(r[i], l, d).len() implies cur.contains(
            #[trigger] adopt_entry(r[i], l, d)[m],
        ) by {
            let x = adopt_entry(r[i], l, d)[m];
            let q = choose|q: int| 0 <= q < prev.len() && prev[q] == x;
            assert(cur[q] == x);
        }
    }
}

/// An id carried by some remote record stands in the merged set
/// exactly when it is present locally or was not locally deleted.
proof fn lemma_merged_contains_remote_id(
    l: Seq<RecordView>,
    r: Seq<RecordView>,
    d: Seq<Seq<char>>,
    k: int,
)
    requires
        unique_ids(l),
        unique_ids(r),
        0 <= k < r.len(),
    ensures
        contains_id(merged_of(l, r, d), r[k].id) == (contains_id(l, r[k].id) || !d.contains(
            r[k].id,
        )),
{
    let id = r[k].id;
    let a = merged_local(l, r, l.len() as int);
    let b = merged_remote(r, l, d, r.len() as int);
    let m1 = merged_of(l, r, d);
    lemma_merged_local_ids(l, r, l.len() as int);
    lemma_merged_remote_ids(r, l, d, r.len() as int);
    if contains_id(l, id) {
        let i = choose|i: int| 0 <= i < l.len() && l[i].id == id;
        lemma_find_rec_props(r, l[i].id);
        assert(contains_id(r, id));
        let e = merge_entry(l[i], r);
        assert(e.len() == 1);
        assert(e[0].id == l[i].id);
        lemma_merged_local_includes(l, r, l.len() as int, i);
        let q = choose|q: int| 0 <= q < a.len() && a[q] == e[0];
        assert(m1[q] == a[q]);
        assert(contains_id(m1, id));
    } else if !d.contains(id) {
        let e = adopt_entry(r[k], l, d);
        assert(e =~= seq![adopt(r[k])]);
        lemma_merged_remote_includes(r, l, d, r.len() as int, k);
        assert(e[0] == adopt(r[k]));
        let q = choose|q: int| 0 <= q < b.len() && b[q] == e[0];
        assert(m1[a.len() + q] == b[q]);
        assert(adopt(r[k]).id == id);
        assert(contains_id(m1, id));
    } else {
        if contains_id(m1, id) {
            let q = choose|q: int| 0 <= q < m1.len() && m1[q].id == id;
            if q < a.len() {
                assert(m1[q] == a[q]);
                assert(contains_id(l, a[q].id));
                assert(false);
            } else {
                assert(m1[q] == b[q - a.len()]);
                let kk = choose|kk: int|
                    0 <= kk < r.len() && b[q - a.len()] == adopt(r[kk]) && !contains_id(
                        l,
                        r[kk].id,
                    ) && !d.contains(r[kk].id);
                assert(b[q - a.len()].id == r[kk].id);
                assert(!d.contains(id));
                assert(false);
            }
        }
    }
}

/// A second remote pass against the already-merged set adopts nothing
/// and re-issues exactly the deletions of the first pass.
proof fn lemma_second_remote(l: Seq<RecordView>, r: Seq<RecordView>, d: Seq<Seq<char>>, n: int)
    requires
        unique_ids(l),
        unique_ids(r),
        n <= r.len(),
    ensures
        merged_remote(r, merged_of(l, r, d), d, n) =~= Seq::<RecordView>::empty(),
        deletes_remote(r, merged_of(l, r, d), d, n) =~= deletes_remote(r, l, d, n),
    decreases n,
{
    if n <= 0 {
    } else {
        lemma_second_remote(l, r, d, n - 1);
        let m1 = merged_of(l, r, d);
        lemma_merged_contains_remote_id(l, r, d, n - 1);
        let id = r[n - 1].id;
        if contains_id(l, id) {
            assert(contains_id(m1, id));
            assert(adopt_entry(r[n - 1], m1, d) =~= Seq::<RecordView>::empty());
            assert(delete_entry(r[n - 1], m1, d) =~= delete_entry(r[n - 1], l, d));
        } else if !d.contains(id) {
            assert(contains_id(m1, id));
            assert(adopt_entry(r[n - 1], m1, d) =~= Seq::<RecordView>::empty());
            assert(delete_entry(r[n - 1], m1, d) =~= Seq::<PushOpView>::empty());
            assert(delete_entry(r[n - 1], l, d) =~= Seq::<PushOpView>::empty());
        } else {
            assert(!contains_id(m1, id));
            assert(adopt_entry(r[n - 1], m1, d) =~= Seq::<RecordView>::empty());
            assert(delete_entry(r[n - 1], m1, d) =~= seq![PushOpView::Delete(id)]);
            assert(delete_entry(r[n - 1], l, d) =~= seq![PushOpView::Delete(id)]);
        }
    }
}

/// Merge idempotence: reconciling an already-merged pair against the
/// same remote snapshot yields the same merged set and the same
/// outbound operations. In particular, when the first pass produced
/// no operations, the second pass produces none either; a record
/// still pending is re-offered for push, which is what makes a sync
/// cycle safe to re-run after partial failure.
pub proof fn lemma_reconcile_idempotent(l: Seq<RecordView>, r: Seq<RecordView>, d: Seq<Seq<char>>)
    requires
        unique_ids(l),
        unique_ids(r),
    ensures
        merged_of(merged_of(l, r, d), r, d) =~= merged_of(l, r, d),
        pushes_of(merged_of(l, r, d), r, d) =~= pushes_of(l, r, d),
{
    let a = merged_local(l, r, l.len() as int);
    let b = merged_remote(r, l, d, r.len() as int);
    let m1 = merged_of(l, r, d);
    assert(m1 == a + b);
    lemma_local_fold_concat(a, b, r);
    lemma_local_stable(l, r, l.len() as int);
    lemma_remote_stable(r, l, d, r.len() as int);
    lemma_second_remote(l, r, d, r.len() as int);
    assert(merged_local(m1, r, m1.len() as int) =~= a + b);
    assert(pushes_local(m1, r, m1.len() as int) =~= pushes_local(l, r, l.len() as int));
}

/// With no pending local edit and no local deletion, reconciliation
/// pushes nothing: the remote snapshot is simply adopted. (A pending
/// edit or a tombstone is exactly what makes the push list non-empty.)
pub proof fn lemma_reconcile_quiescent(l: Seq<RecordView>, r: Seq<RecordView>, d: Seq<Seq<char>>)
    requires
        forall|i: int| 0 <= i < l.len() ==> !l[i].pending_sync,
        d.len() == 0,
    ensures
        pushes_of(l, r, d) =~= Seq::<PushOpView>::empty(),
{
    lemma_quiescent_local(l, r, l.len() as int);
    lemma_quiescent_remote(r, l, d, r.len() as int);
}

proof fn lemma_quiescent_local(l: Seq<RecordView>, r: Seq<RecordView>, n: int)
    requires
        n <= l.len(),
        forall|i: int| 0 <= i < l.len() ==> !l[i].pending_sync,
    ensures
        pushes_local(l, r, n) =~= Seq::<PushOpView>::empty(),
    decreases n,
{
    if n > 0 {
        lemma_quiescent_local(l, r, n - 1);
        assert(push_entry(l[n - 1], r) =~= Seq::<PushOpView>::empty());
    }
}

proof fn lemma_quiescent_remote(r: Seq<RecordView>, l: Seq<RecordView>, d: Seq<Seq<char>>, n: int)
    requires
        n <= r.len(),
        d.len() == 0,
    ensures
        deletes_remote(r, l, d, n) =~= Seq::<PushOpView>::empty(),
    decreases n,
{
    if n > 0 {
        lemma_quiescent_remote(r, l, d, n - 1);
        assert(delete_entry(r[n - 1], l, d) =~= Seq::<PushOpView>::empty());
    }
}

/// Missing timestamp means local precedence: a pending local record
/// without `updated_at` always wins over any remote counterpart, and
/// is pushed — as an update when a counterpart exists, as a creation
/// otherwise.
pub proof fn lemma_missing_timestamp_local_precedence(lr: RecordView, r: Seq<RecordView>)
    requires
        lr.pending_sync,
        lr.updated_at is None,
    ensures
        merge_entry(lr, r) =~= seq![lr],
        contains_id(r, lr.id) ==> push_entry(lr, r) =~= seq![PushOpView::Update(lr)],
        !contains_id(r, lr.id) ==> push_entry(lr, r) =~= seq![PushOpView::Create(lr)],
{
    lemma_find_rec_props(r, lr.id);
}

proof fn lemma_pushes_local_op_ids(l: Seq<RecordView>, r: Seq<RecordView>, n: int)
    requires
        n <= l.len(),
    ensures
        forall|m: int| 0 <= m < pushes_local(l, r, n).len() ==> contains_id(
            l,
            op_id(#[trigger] pushes_local(l, r, n)[m]),
        ),
    decreases n,
{
    if n > 0 {
        lemma_pushes_local_op_ids(l, r, n - 1);
        let prev = pushes_local(l, r, n - 1);
        let e = push_entry(l[n - 1], r);
        let cur = pushes_local(l, r, n);
        assert forall|m: int| 0 <= m < cur.len() implies contains_id(
            l,
            op_id(#[trigger] cur[m]),
        ) by {
            if m < prev.len() {
                assert(cur[m] == prev[m]);
            } else {
                assert(cur[m] == e[m - prev.len()]);
                assert(op_id(cur[m]) == l[n - 1].id);
            }
        }
    }
}

proof fn lemma_deletes_remote_op_ids(
    r: Seq<RecordView>,
    l: Seq<RecordView>,
    d: Seq<Seq<char>>,
    n: int,
)
    requires
        n <= r.len(),
    ensures
        forall|m: int| 0 <= m < deletes_remote(r, l, d, n).len() ==> d.contains(
            op_id(#[trigger] deletes_remote(r, l, d, n)[m]),
        ),
    decreases n,
{
    if n > 0 {
        lemma_deletes_remote_op_ids(r, l, d, n - 1);
        let prev = deletes_remote(r, l, d, n - 1);
        let e = delete_entry(r[n - 1], l, d);
        let cur = deletes_remote(r, l, d, n);
        assert forall|m: int| 0 <= m < cur.len() implies d.contains(
            op_id(#[trigger] cur[m]),
        ) by {
            if m < prev.len() {
                assert(cur[m] == prev[m]);
            } else {
                assert(cur[m] == e[m - prev.len()]);
            }
        }
    }
}

/// A record present only remotely never produces a push operation:
/// every outbound operation refers to an id present in the local
/// snapshot (creations and updates) or locally deleted (deletions).
pub proof fn lemma_remote_only_never_pushed(
    l: Seq<RecordView>,
    r: Seq<RecordView>,
    d: Seq<Seq<char>>,
    id: Seq<char>,
)
    requires
        !contains_id(l, id),
        !d.contains(id),
    ensures
        forall|k: int| 0 <= k < pushes_of(l, r, d).len() ==> op_id(
            #[trigger] pushes_of(l, r, d)[k],
        ) != id,
{
    lemma_pushes_local_op_ids(l, r, l.len() as int);
    lemma_deletes_remote_op_ids(r, l, d, r.len() as int);
    let a = pushes_local(l, r, l.len() as int);
    let b = deletes_remote(r, l, d, r.len() as int);
    let p = pushes_of(l, r, d);
    assert forall|k: int| 0 <= k < p.len() implies op_id(#[trigger] p[k]) != id by {
        if k < a.len() {
            assert(p[k] == a[k]);
        } else {
            assert(p[k] == b[k - a.len()]);
        }
    }
}

} // verus!
