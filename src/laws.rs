//! Properties that hold across several operations, stated over the models
//! that the operations' contracts use.
use vstd::prelude::*;
use crate::definition::{
    deleted_row, edited_row, has_live_row, live, rows_after_delete, rows_after_edit, Catalog,
    TunnelDefinition, TunnelParams,
};
use crate::manager::{after_launch, launch_result, lemma_stop_inactive, lemma_without_drops};
use crate::registry::{
    deaths, is_active_in, is_dead, survivors, unique_ids, without, LaunchOutcome, Liveness,
    TunnelHandle,
};

verus! {

/// Every row that `live` lists comes from `rows` and is not deleted, and
/// every row of `rows` that is not deleted is listed.
pub proof fn lemma_live_members(rows: Seq<TunnelDefinition>)
    ensures
        forall|k: int| 0 <= k < live(rows).len() ==> rows.contains(#[trigger] live(rows)[k]) && !live(rows)[k].deleted,
        forall|i: int| 0 <= i < rows.len() && !(#[trigger] rows[i]).deleted ==> live(rows).contains(rows[i]),
    decreases rows.len(),
{
    if rows.len() > 0 {
        let init = rows.drop_last();
        lemma_live_members(init);
        let l = live(init);
        assert forall|k: int| 0 <= k < l.len() implies rows.contains(#[trigger] l[k]) by {
            let x = choose|x: int| 0 <= x < init.len() && init[x] == l[k];
            assert(rows[x] == l[k]);
        }
        assert forall|i: int| 0 <= i < rows.len() && !(#[trigger] rows[i]).deleted implies live(rows).contains(rows[i]) by {
            if i < rows.len() - 1 {
                assert(rows[i] == init[i]);
                let x = choose|x: int| 0 <= x < l.len() && l[x] == init[i];
                if !rows.last().deleted {
                    assert(live(rows)[x] == l[x]);
                }
            } else {
                assert(live(rows)[live(rows).len() - 1] == rows[i]);
            }
        }
        if !rows.last().deleted {
            let ls = l.push(rows.last());
            assert forall|k: int| 0 <= k < ls.len() implies rows.contains(#[trigger] ls[k]) && !ls[k].deleted by {
                if k == l.len() {
                    assert(rows[rows.len() - 1] == ls[k]);
                } else {
                    assert(ls[k] == l[k]);
                }
            }
        }
    }
}

/// Creating a definition and then listing yields the earlier listing with
/// the new definition appended, and it is the only listed definition with
/// its identifier.
pub proof fn law_create_then_list(c: Catalog, params: TunnelParams)
    requires
        c.wf(),
    ensures
        ({
            let d = TunnelDefinition { id: c.next_id_spec(), params, deleted: false };
            let after = live(c@.push(d));
            &&& after == live(c@).push(d)
            &&& forall|k: int| 0 <= k < after.len() && (#[trigger] after[k]).id == d.id ==> k == after.len() - 1
        }),
{
    let d = TunnelDefinition { id: c.next_id_spec(), params, deleted: false };
    let rows = c@.push(d);
    assert(rows.drop_last() =~= c@);
    lemma_live_members(c@);
    let after = live(rows);
    assert forall|k: int| 0 <= k < after.len() && (#[trigger] after[k]).id == d.id implies k == after.len() - 1 by {
        if k < after.len() - 1 {
            assert(after[k] == live(c@)[k]);
            let x = choose|x: int| 0 <= x < c@.len() && c@[x] == live(c@)[k];
            c.lemma_ids_below_next(x);
        }
    }
}

/// After deleting tunnel `id`, listing shows no definition with that
/// identifier.
pub proof fn law_delete_then_list(rows: Seq<TunnelDefinition>, id: i64)
    ensures
        forall|k: int|
            0 <= k < live(rows_after_delete(rows, id)).len() ==> (#[trigger] live(rows_after_delete(rows, id))[k]).id != id,
{
    let after = rows_after_delete(rows, id);
    lemma_live_members(after);
    assert forall|k: int| 0 <= k < live(after).len() implies (#[trigger] live(after)[k]).id != id by {
        let x = choose|x: int| 0 <= x < after.len() && after[x] == live(after)[k];
        assert(after[x] == deleted_row(rows[x], id));
    }
}

/// A start whose report succeeds leaves the tunnel active; a stop leaves it
/// inactive.
pub proof fn law_start_then_stop(
    rows: Seq<TunnelDefinition>,
    hs: Seq<TunnelHandle>,
    id: i64,
    params: TunnelParams,
    pid: u32,
    outcome: LaunchOutcome,
)
    ensures
        launch_result(rows, hs, id, outcome) is Ok ==> is_active_in(after_launch(rows, hs, id, params, pid, outcome), id),
        !is_active_in(without(hs, id), id),
{
    lemma_without_drops(hs, id);
    if launch_result(rows, hs, id, outcome) is Ok {
        let after = after_launch(rows, hs, id, params, pid, outcome);
        assert(after[after.len() - 1].id == id);
    }
}

/// Once a start has succeeded, the tunnel is active, so a second start
/// launches nothing (`start_tunnel` answers `Ok(None)`), and no later report
/// of a launch for it adds a handle.
pub proof fn law_start_idempotent(
    rows: Seq<TunnelDefinition>,
    hs: Seq<TunnelHandle>,
    id: i64,
    params: TunnelParams,
    pid: u32,
    outcome: LaunchOutcome,
)
    requires
        launch_result(rows, hs, id, outcome) is Ok,
    ensures
        ({
            let once = after_launch(rows, hs, id, params, pid, outcome);
            &&& is_active_in(once, id)
            &&& forall|p: TunnelParams, q: u32, o: LaunchOutcome| #[trigger] after_launch(rows, once, id, p, q, o) == once
        }),
{
    law_start_then_stop(rows, hs, id, params, pid, outcome);
}

/// Stopping a tunnel that has no handle changes nothing.
pub proof fn law_stop_idempotent(hs: Seq<TunnelHandle>, id: i64)
    requires
        !is_active_in(hs, id),
    ensures
        without(hs, id) == hs,
{
    lemma_stop_inactive(hs, id);
}

/// The liveness sweep keeps exactly the handles not reported dead, each as
/// it was, and gives exactly one diagnostic per handle it drops.
pub proof fn law_sweep_removes_dead(hs: Seq<TunnelHandle>, probes: Seq<(i64, Liveness)>)
    requires
        unique_ids(hs),
    ensures
        ({
            let kept = survivors(hs, probes);
            let died = deaths(hs, probes);
            &&& forall|k: int| 0 <= k < kept.len() ==> !is_dead(probes, (#[trigger] kept[k]).id)
            &&& forall|i: int| 0 <= i < hs.len() && !is_dead(probes, (#[trigger] hs[i]).id) ==> kept.contains(hs[i])
            &&& forall|i: int| 0 <= i < hs.len() && is_dead(probes, (#[trigger] hs[i]).id) ==> !is_active_in(kept, hs[i].id)
            &&& kept.len() + died.len() == hs.len()
            &&& forall|i: int| 0 <= i < hs.len() && is_dead(probes, (#[trigger] hs[i]).id) ==> exists|k: int| 0 <= k < died.len() && (#[trigger] died[k]).0 == hs[i].id
            &&& forall|k: int| 0 <= k < died.len() ==> is_dead(probes, (#[trigger] died[k]).0) && is_active_in(hs, died[k].0)
            &&& forall|a: int, b: int| 0 <= a < b < died.len() ==> (#[trigger] died[a]).0 != (#[trigger] died[b]).0
        }),
    decreases hs.len(),
{
    if hs.len() > 0 {
        let init = hs.drop_last();
        let h = hs.last();
        assert(unique_ids(init)) by {
            assert forall|i: int, j: int| 0 <= i < j < init.len() implies (#[trigger] init[i]).id != (#[trigger] init[j]).id by {
                assert(init[i] == hs[i] && init[j] == hs[j]);
            }
        }
        law_sweep_removes_dead(init, probes);
        let k0 = survivors(init, probes);
        let d0 = deaths(init, probes);
        let kept = survivors(hs, probes);
        let died = deaths(hs, probes);
        assert forall|i: int| 0 <= i < init.len() implies (#[trigger] init[i]).id != h.id by {
            assert(hs[i] == init[i]);
            assert(hs[hs.len() - 1] == h);
        }
        crate::registry::lemma_survivors_unique(init, probes);
        if is_dead(probes, h.id) {
            assert(kept == k0);
            assert(died == d0.push(crate::registry::diagnose(h, probes)));
            assert forall|i: int| 0 <= i < hs.len() && !is_dead(probes, (#[trigger] hs[i]).id) implies kept.contains(hs[i]) by {
                assert(i < init.len());
                assert(hs[i] == init[i]);
            }
            assert forall|i: int| 0 <= i < hs.len() && is_dead(probes, (#[trigger] hs[i]).id) implies !is_active_in(kept, hs[i].id) by {
                if i < init.len() {
                    assert(hs[i] == init[i]);
                } else {
                    if is_active_in(kept, h.id) {
                        let x = choose|x: int| 0 <= x < kept.len() && (#[trigger] kept[x]).id == h.id;
                        let y = choose|y: int| 0 <= y < init.len() && init[y] == kept[x];
                    }
                }
            }
            assert forall|i: int| 0 <= i < hs.len() && is_dead(probes, (#[trigger] hs[i]).id) implies exists|k: int| 0 <= k < died.len() && (#[trigger] died[k]).0 == hs[i].id by {
                if i < init.len() {
                    assert(hs[i] == init[i]);
                    let k = choose|k: int| 0 <= k < d0.len() && (#[trigger] d0[k]).0 == init[i].id;
                    assert(died[k] == d0[k]);
                } else {
                    assert(died[d0.len() as int].0 == hs[i].id);
                }
            }
            assert forall|k: int| 0 <= k < died.len() implies is_dead(probes, (#[trigger] died[k]).0) && is_active_in(hs, died[k].0) by {
                if k < d0.len() {
                    assert(died[k] == d0[k]);
                    let x = choose|x: int| 0 <= x < init.len() && (#[trigger] init[x]).id == d0[k].0;
                    assert(hs[x] == init[x]);
                } else {
                    assert(hs[hs.len() - 1].id == died[k].0);
                }
            }
            assert forall|a: int, b: int| 0 <= a < b < died.len() implies (#[trigger] died[a]).0 != (#[trigger] died[b]).0 by {
                assert(died[a] == d0[a]);
                if b < d0.len() {
                    assert(died[b] == d0[b]);
                } else {
                    let x = choose|x: int| 0 <= x < init.len() && (#[trigger] init[x]).id == d0[a].0;
                }
            }
        } else {
            assert(kept == k0.push(h));
            assert(died == d0);
            assert forall|k: int| 0 <= k < kept.len() implies !is_dead(probes, (#[trigger] kept[k]).id) by {
                if k < k0.len() {
                    assert(kept[k] == k0[k]);
                }
            }
            assert forall|i: int| 0 <= i < hs.len() && !is_dead(probes, (#[trigger] hs[i]).id) implies kept.contains(hs[i]) by {
                if i < init.len() {
                    assert(hs[i] == init[i]);
                    let x = choose|x: int| 0 <= x < k0.len() && k0[x] == init[i];
                    assert(kept[x] == k0[x]);
                } else {
                    assert(kept[k0.len() as int] == hs[i]);
                }
            }
            assert forall|i: int| 0 <= i < hs.len() && is_dead(probes, (#[trigger] hs[i]).id) implies !is_active_in(kept, hs[i].id) by {
                assert(i < init.len());
                assert(hs[i] == init[i]);
                if is_active_in(kept, hs[i].id) {
                    let x = choose|x: int| 0 <= x < kept.len() && (#[trigger] kept[x]).id == hs[i].id;
                    if x < k0.len() {
                        assert(kept[x] == k0[x]);
                    }
                }
            }
            assert forall|i: int| 0 <= i < hs.len() && is_dead(probes, (#[trigger] hs[i]).id) implies exists|k: int| 0 <= k < died.len() && (#[trigger] died[k]).0 == hs[i].id by {
                assert(i < init.len());
                assert(hs[i] == init[i]);
            }
            assert forall|k: int| 0 <= k < died.len() implies is_dead(probes, (#[trigger] died[k]).0) && is_active_in(hs, died[k].0) by {
                let x = choose|x: int| 0 <= x < init.len() && (#[trigger] init[x]).id == d0[k].0;
                assert(hs[x] == init[x]);
            }
        }
    }
}

/// Editing an active tunnel saves the new parameters at once and drops its
/// handle; when the relaunch then fails, the tunnel stays inactive and the
/// listing still shows the new parameters.
pub proof fn law_edit_then_failed_restart(
    rows: Seq<TunnelDefinition>,
    hs: Seq<TunnelHandle>,
    id: i64,
    params: TunnelParams,
    pid: u32,
    outcome: LaunchOutcome,
)
    requires
        has_live_row(rows, id),
        outcome != LaunchOutcome::Probed(Liveness::Running),
    ensures
        ({
            let edited = rows_after_edit(rows, id, params);
            let stopped = without(hs, id);
            let after = after_launch(edited, stopped, id, params, pid, outcome);
            &&& live(edited).contains(TunnelDefinition { id, params, deleted: false })
            &&& launch_result(edited, stopped, id, outcome) is Err
            &&& !is_active_in(after, id)
        }),
{
    let edited = rows_after_edit(rows, id, params);
    let i = choose|i: int| 0 <= i < rows.len() && (#[trigger] rows[i]).id == id && !rows[i].deleted;
    assert(edited[i] == edited_row(rows[i], id, params));
    lemma_live_members(edited);
    lemma_without_drops(hs, id);
}

} // verus!
