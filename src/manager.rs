//! The tunnel manager: the definitions and the live handles together, and
//! the decisions that a user's requests call for.
//!
//! Every handle belongs to a live definition. Work outside the process (a
//! launch, a kill, a write to durable storage) is left to the caller: a
//! request returns what is to be done, and `finish_start` takes back what
//! came of a launch.
use vstd::prelude::*;
use crate::definition::{
    deleted_row, edited_row, has_live_row, rows_after_delete, rows_after_edit, has_row, live, Catalog, StoreError, TunnelDefinition,
    TunnelParams,
};
use crate::search::{filter_by_name, shown};
use crate::registry::{
    after_start, command_view, deaths, diagnostic_view, is_active_in, ssh_args_spec, ssh_command,
    ssh_program, start_result, survivors, unique_ids, without, Diagnostic, LaunchCommand,
    LaunchOutcome, Liveness, Registry, TunnelError, TunnelHandle,
};

verus! {

/// What a toggle request calls for.
#[derive(Debug)]
pub enum ToggleStep {
    /// The tunnel was active: this handle was dropped and its process is to
    /// be killed.
    Stopped(TunnelHandle),
    /// The tunnel was stopped: launch this command for these parameters,
    /// then report with `finish_start`.
    Launch(TunnelParams, LaunchCommand),
}

/// What an edit calls for once the definition is saved.
#[derive(Debug)]
pub enum EditStep {
    /// The tunnel was not active: nothing more to do.
    Saved,
    /// The tunnel was active: this handle was dropped and its process is to
    /// be killed; launch the command for the new parameters, then report with
    /// `finish_start`.
    Restart(TunnelHandle, LaunchCommand),
}

/// Every handle in `hs` belongs to a live definition of `rows`.
pub open spec fn handles_have_rows(rows: Seq<TunnelDefinition>, hs: Seq<TunnelHandle>) -> bool {
    forall|i: int| 0 <= i < hs.len() ==> has_live_row(rows, (#[trigger] hs[i]).id)
}

/// The handles after a launch of tunnel `id` ended in `outcome`: as for the
/// registry, and nothing is adopted for a tunnel with no live definition.
pub open spec fn after_launch(
    rows: Seq<TunnelDefinition>,
    hs: Seq<TunnelHandle>,
    id: i64,
    params: TunnelParams,
    pid: u32,
    outcome: LaunchOutcome,
) -> Seq<TunnelHandle> {
    if has_live_row(rows, id) {
        after_start(hs, id, params, pid, outcome)
    } else {
        hs
    }
}

/// What reporting a launch of tunnel `id` returns.
pub open spec fn launch_result(
    rows: Seq<TunnelDefinition>,
    hs: Seq<TunnelHandle>,
    id: i64,
    outcome: LaunchOutcome,
) -> Result<(), TunnelError> {
    if !is_active_in(hs, id) && !has_live_row(rows, id) {
        Err(TunnelError::NotFound)
    } else {
        start_result(hs, id, outcome)
    }
}

/// The definitions and the live handles of a user's tunnels.
pub struct Tunneler {
    catalog: Catalog,
    registry: Registry,
}

impl Tunneler {
    /// Every definition, deleted ones included.
    pub closed spec fn rows(&self) -> Seq<TunnelDefinition> {
        self.catalog@
    }

    /// The live handles, in order of start.
    pub closed spec fn handles(&self) -> Seq<TunnelHandle> {
        self.registry@
    }

    /// The identifier the next created definition gets.
    pub closed spec fn next_id_spec(&self) -> i64 {
        self.catalog.next_id_spec()
    }

    /// Both parts are well formed and every handle belongs to a live
    /// definition.
    pub closed spec fn wf(&self) -> bool {
        &&& self.catalog.wf()
        &&& self.registry.wf()
        &&& handles_have_rows(self.catalog@, self.registry@)
    }

    /// What a well-formed manager guarantees: definition identifiers are
    /// unique, positive and below the next one to be handed out; no two
    /// handles share an identifier; and every handle belongs to a live
    /// definition.
    pub proof fn lemma_wf(&self)
        requires
            self.wf(),
        ensures
            self.next_id_spec() >= 1,
            forall|i: int| 0 <= i < self.rows().len() ==> (#[trigger] self.rows()[i]).id < self.next_id_spec(),
            forall|i: int, j: int|
                0 <= i < j < self.rows().len() ==> (#[trigger] self.rows()[i]).id != (#[trigger] self.rows()[j]).id,
            unique_ids(self.handles()),
            handles_have_rows(self.rows(), self.handles()),
    {
        self.catalog.lemma_wf();
    }

    /// The live definition with identifier `id`, if there is one.
    pub fn definition(&self, id: i64) -> (r: Option<TunnelDefinition>)
        requires
            self.wf(),
        ensures
            r is Some <==> has_live_row(self.rows(), id),
            r matches Some(d) ==> d.id == id && !d.deleted && self.rows().contains(d),
    {
        self.catalog.get(id)
    }

    /// A manager over `catalog` with no tunnel running.
    pub fn new(catalog: Catalog) -> (r: Tunneler)
        requires
            catalog.wf(),
        ensures
            r.wf(),
            r.rows() == catalog@,
            r.next_id_spec() == catalog.next_id_spec(),
            r.handles() == Seq::<TunnelHandle>::empty(),
    {
        Tunneler { catalog, registry: Registry::new() }
    }

    /// The live definitions, in order of creation.
    pub fn list_active(&self) -> (r: Vec<TunnelDefinition>)
        ensures
            r@ == live(self.rows()),
    {
        self.catalog.list_active()
    }

    /// The live definitions whose names match the search `query` (all of
    /// them for an empty query), in order of creation.
    pub fn visible_tunnels(&self, query: &str) -> (r: Vec<TunnelDefinition>)
        ensures
            r@ == shown(live(self.rows()), query@),
    {
        let all = self.catalog.list_active();
        filter_by_name(&all, query)
    }

    /// Whether tunnel `id` has a handle.
    pub fn is_active(&self, id: i64) -> (r: bool)
        ensures
            r == is_active_in(self.handles(), id),
    {
        self.registry.is_active(id)
    }

    /// The process id of tunnel `id`, while it is active.
    pub fn pid_of(&self, id: i64) -> (r: Option<u32>)
        requires
            self.wf(),
        ensures
            r is Some <==> is_active_in(self.handles(), id),
            forall|i: int|
                0 <= i < self.handles().len() && (#[trigger] self.handles()[i]).id == id ==> r == Some(
                    self.handles()[i].pid,
                ),
    {
        self.registry.pid_of(id)
    }

    /// The identifiers of the active tunnels, in order of start: the ones a
    /// liveness sweep is to probe.
    pub fn active_ids(&self) -> (r: Vec<i64>)
        ensures
            r@ == self.handles().map_values(|h: TunnelHandle| h.id),
    {
        self.registry.active_ids()
    }

    /// The identifier that the next `create` assigns, if any is left.
    pub fn next_id(&self) -> (r: Option<i64>)
        requires
            self.wf(),
        ensures
            r == (if self.next_id_spec() < i64::MAX {
                Some(self.next_id_spec())
            } else {
                None
            }),
    {
        self.catalog.next_id()
    }

    /// Adds a definition under the next identifier, which no row has; see
    /// `Catalog::create`.
    pub fn create(&mut self, params: TunnelParams) -> (r: Result<i64, StoreError>)
        requires
            old(self).wf(),
        ensures
            final(self).wf(),
            final(self).handles() == old(self).handles(),
            old(self).next_id_spec() < i64::MAX ==> {
                &&& r == Ok::<i64, StoreError>(old(self).next_id_spec())
                &&& forall|i: int|
                    0 <= i < old(self).rows().len() ==> (#[trigger] old(self).rows()[i]).id
                        != old(self).next_id_spec()
                &&& final(self).rows() == old(self).rows().push(
                    TunnelDefinition { id: old(self).next_id_spec(), params, deleted: false },
                )
                &&& final(self).next_id_spec() == old(self).next_id_spec() + 1
            },
            old(self).next_id_spec() == i64::MAX ==> {
                &&& r == Err::<i64, StoreError>(StoreError::IdsExhausted)
                &&& final(self).rows() == old(self).rows()
            },
    {
        proof {
            old(self).catalog.lemma_wf();
        }
        let r = self.catalog.create(params);
        proof {
            lemma_rows_grow_keep_handles(old(self).catalog@, self.catalog@, self.registry@);
        }
        r
    }

    /// A start request for tunnel `id`: `Ok(None)` where it already has a
    /// handle (nothing is launched), the parameters and command to launch
    /// where it has a live definition, `NotFound` otherwise.
    pub fn start_tunnel(&self, id: i64) -> (r: Result<Option<(TunnelParams, LaunchCommand)>, TunnelError>)
        requires
            self.wf(),
        ensures
            is_active_in(self.handles(), id) ==> (r matches Ok(None)),
            !is_active_in(self.handles(), id) && has_live_row(self.rows(), id) ==> (r matches Ok(
                Some((p, c)),
            ) && self.rows().contains(TunnelDefinition { id, params: p, deleted: false })
                && command_view(c) == (ssh_program(), ssh_args_spec(p))),
            !is_active_in(self.handles(), id) && !has_live_row(self.rows(), id) ==> (r matches Err(
                TunnelError::NotFound,
            )),
    {
        if self.registry.is_active(id) {
            return Ok(None);
        }
        match self.catalog.get(id) {
            Some(d) => {
                let c = ssh_command(&d.params);
                Ok(Some((d.params, c)))
            },
            None => Err(TunnelError::NotFound),
        }
    }

    /// A stop request for tunnel `id`: its handle is dropped and handed back
    /// so that its process can be killed; without a handle nothing changes.
    pub fn stop_tunnel(&mut self, id: i64) -> (r: Option<TunnelHandle>)
        requires
            old(self).wf(),
        ensures
            final(self).wf(),
            final(self).rows() == old(self).rows(),
            final(self).handles() == without(old(self).handles(), id),
            r is Some <==> is_active_in(old(self).handles(), id),
            r matches Some(h) ==> h.id == id && old(self).handles().contains(h),
    {
        let r = self.registry.stop(id);
        proof {
            lemma_without_keeps_rows(self.catalog@, old(self).registry@, id);
        }
        r
    }

    /// Toggles tunnel `id`: an active tunnel is stopped at once and its
    /// handle handed back; a stopped one with a live definition is to be
    /// launched; a stopped one without gives `NotFound`.
    pub fn toggle_tunnel(&mut self, id: i64) -> (r: Result<ToggleStep, TunnelError>)
        requires
            old(self).wf(),
        ensures
            final(self).wf(),
            final(self).rows() == old(self).rows(),
            final(self).handles() == without(old(self).handles(), id),
            is_active_in(old(self).handles(), id) ==> (r matches Ok(ToggleStep::Stopped(h)) && h.id
                == id && old(self).handles().contains(h)),
            !is_active_in(old(self).handles(), id) && has_live_row(old(self).rows(), id) ==> (
            r matches Ok(ToggleStep::Launch(p, c)) && old(self).rows().contains(
                TunnelDefinition { id, params: p, deleted: false },
            ) && command_view(c) == (ssh_program(), ssh_args_spec(p))),
            !is_active_in(old(self).handles(), id) && !has_live_row(old(self).rows(), id) ==> (r
                matches Err(TunnelError::NotFound)),
    {
        match self.registry.stop(id) {
            Some(h) => {
                proof {
                    lemma_without_keeps_rows(self.catalog@, old(self).registry@, id);
                }
                Ok(ToggleStep::Stopped(h))
            },
            None => {
                proof {
                    lemma_stop_inactive(old(self).registry@, id);
                }
                match self.catalog.get(id) {
                    Some(d) => {
                        let c = ssh_command(&d.params);
                        Ok(ToggleStep::Launch(d.params, c))
                    },
                    None => Err(TunnelError::NotFound),
                }
            },
        }
    }

    /// Reports what came of launching tunnel `id` with `params` as process
    /// `pid`. The process is adopted only where the tunnel has a live
    /// definition and no handle, and was running at its first probe;
    /// otherwise the caller still owns it and is to kill it.
    pub fn finish_start(
        &mut self,
        id: i64,
        params: TunnelParams,
        pid: u32,
        outcome: LaunchOutcome,
    ) -> (r: Result<(), TunnelError>)
        requires
            old(self).wf(),
        ensures
            final(self).wf(),
            final(self).rows() == old(self).rows(),
            final(self).handles() == after_launch(old(self).rows(), old(self).handles(), id, params, pid, outcome),
            r == launch_result(old(self).rows(), old(self).handles(), id, outcome),
    {
        if !self.registry.is_active(id) && self.catalog.get(id).is_none() {
            return Err(TunnelError::NotFound);
        }
        let ghost was_live = has_live_row(self.catalog@, id);
        let r = self.registry.finish_start(id, params, pid, outcome);
        proof {
            if !was_live {
                // a handle exists, so nothing was added
                assert(is_active_in(old(self).registry@, id));
            }
            let hs = self.registry@;
            assert forall|i: int| 0 <= i < hs.len() implies has_live_row(self.catalog@, (#[trigger] hs[i]).id) by {
                if i < old(self).registry@.len() {
                    assert(hs[i] == old(self).registry@[i]);
                }
            }
        }
        r
    }

    /// Saves new parameters for the live definition `id`. Where the tunnel
    /// was active its handle is dropped and handed back, and the command for
    /// the new parameters is to be launched: if that launch fails, the
    /// definition stays updated and the tunnel stays stopped. Without a live
    /// definition nothing changes and the result is `NotFound`.
    pub fn save_edited_tunnel(&mut self, id: i64, params: TunnelParams) -> (r: Result<EditStep, TunnelError>)
        requires
            old(self).wf(),
        ensures
            final(self).wf(),
            final(self).next_id_spec() == old(self).next_id_spec(),
            !has_live_row(old(self).rows(), id) ==> (r matches Err(TunnelError::NotFound) && final(self).rows()
                == old(self).rows() && final(self).handles() == old(self).handles()),
            has_live_row(old(self).rows(), id) ==> {
                &&& final(self).rows() == rows_after_edit(old(self).rows(), id, params)
                &&& final(self).handles() == without(old(self).handles(), id)
                &&& !is_active_in(old(self).handles(), id) ==> (r matches Ok(EditStep::Saved))
                &&& is_active_in(old(self).handles(), id) ==> (r matches Ok(EditStep::Restart(h, c))
                    && h.id == id && old(self).handles().contains(h) && command_view(c) == (
                ssh_program(), ssh_args_spec(params)))
            },
    {
        let cmd = ssh_command(&params);
        match self.catalog.update(id, params) {
            Err(_) => {
                proof {
                    assert(self.catalog@ =~= old(self).catalog@) by {
                        assert forall|i: int| 0 <= i < self.catalog@.len() implies self.catalog@[i] == old(self).catalog@[i] by {
                            let d = old(self).catalog@[i];
                            if d.id == id && !d.deleted {
                                assert(has_live_row(old(self).catalog@, id));
                            }
                        }
                    }
                }
                Err(TunnelError::NotFound)
            },
            Ok(()) => {
                proof {
                    lemma_edit_keeps_handles(old(self).catalog@, id, params, self.registry@);
                }
                match self.registry.stop(id) {
                    Some(h) => {
                        proof {
                            lemma_without_keeps_rows(self.catalog@, old(self).registry@, id);
                        }
                        Ok(EditStep::Restart(h, cmd))
                    },
                    None => {
                        proof {
                            lemma_stop_inactive(old(self).registry@, id);
                        }
                        Ok(EditStep::Saved)
                    },
                }
            },
        }
    }

    /// Stops tunnel `id` if it is active, handing its handle back, then
    /// marks its definition deleted; an identifier that no definition has
    /// gives `NotFound`, the stop having happened all the same.
    pub fn delete_tunnel(&mut self, id: i64) -> (r: Result<Option<TunnelHandle>, TunnelError>)
        requires
            old(self).wf(),
        ensures
            final(self).wf(),
            final(self).next_id_spec() == old(self).next_id_spec(),
            final(self).handles() == without(old(self).handles(), id),
            final(self).rows() == rows_after_delete(old(self).rows(), id),
            r is Ok <==> has_row(old(self).rows(), id),
            r is Err ==> (r matches Err(TunnelError::NotFound)),
            r matches Ok(Some(h)) ==> h.id == id && old(self).handles().contains(h),
            r matches Ok(None) ==> !is_active_in(old(self).handles(), id),
    {
        let stopped = self.registry.stop(id);
        proof {
            if stopped is None {
                lemma_stop_inactive(old(self).registry@, id);
            }
            lemma_without_drops(old(self).registry@, id);
            lemma_without_keeps_rows(self.catalog@, old(self).registry@, id);
        }
        let r = self.catalog.soft_delete(id);
        proof {
            let hs = self.registry@;
            assert forall|i: int| 0 <= i < hs.len() implies has_live_row(self.catalog@, (#[trigger] hs[i]).id) by {
                let k = hs[i].id;
                assert(k != id) by {
                    assert(!is_active_in(hs, id));
                }
                let j = choose|j: int| 0 <= j < old(self).catalog@.len() && (#[trigger] old(self).catalog@[j]).id == k && !old(self).catalog@[j].deleted;
                assert(self.catalog@[j] == deleted_row(old(self).catalog@[j], id));
            }
        }
        match r {
            Ok(()) => Ok(stopped),
            Err(_) => Err(TunnelError::NotFound),
        }
    }

    /// The liveness sweep; see `Registry::reconcile`.
    pub fn update_tunnel_status(&mut self, probes: &Vec<(i64, Liveness)>) -> (r: Vec<Diagnostic>)
        requires
            old(self).wf(),
        ensures
            final(self).wf(),
            final(self).rows() == old(self).rows(),
            final(self).handles() == survivors(old(self).handles(), probes@),
            r@.map_values(|d: Diagnostic| diagnostic_view(d)) == deaths(old(self).handles(), probes@),
    {
        let r = self.registry.reconcile(probes);
        proof {
            crate::registry::lemma_survivors_unique(old(self).registry@, probes@);
            let hs = self.registry@;
            assert forall|i: int| 0 <= i < hs.len() implies has_live_row(self.catalog@, (#[trigger] hs[i]).id) by {
                let j = choose|j: int| 0 <= j < old(self).registry@.len() && old(self).registry@[j] == hs[i];
                assert(has_live_row(self.catalog@, old(self).registry@[j].id));
            }
        }
        r
    }

    /// Drops every handle and hands them back, so that every process can be
    /// killed at teardown.
    pub fn shutdown(&mut self) -> (r: Vec<TunnelHandle>)
        requires
            old(self).wf(),
        ensures
            final(self).wf(),
            final(self).rows() == old(self).rows(),
            final(self).handles() == Seq::<TunnelHandle>::empty(),
            r@ == old(self).handles(),
    {
        self.registry.drain()
    }
}

/// Stopping a tunnel that has no handle changes nothing.
pub proof fn lemma_stop_inactive(hs: Seq<TunnelHandle>, id: i64)
    requires
        !is_active_in(hs, id),
    ensures
        without(hs, id) == hs,
    decreases hs.len(),
{
    if hs.len() > 0 {
        let init = hs.drop_last();
        assert(!is_active_in(init, id)) by {
            if is_active_in(init, id) {
                let w = choose|w: int| 0 <= w < init.len() && (#[trigger] init[w]).id == id;
                assert(hs[w].id == id);
            }
        }
        lemma_stop_inactive(init, id);
        assert(hs.last().id != id) by {
            assert(hs[hs.len() - 1].id == hs.last().id);
        }
        assert(init.push(hs.last()) =~= hs);
    }
}

/// After a stop, the tunnel has no handle, and every handle kept comes from
/// before.
pub proof fn lemma_without_drops(hs: Seq<TunnelHandle>, id: i64)
    ensures
        !is_active_in(without(hs, id), id),
        forall|k: int| 0 <= k < without(hs, id).len() ==> hs.contains(#[trigger] without(hs, id)[k]),
    decreases hs.len(),
{
    if hs.len() > 0 {
        let init = hs.drop_last();
        lemma_without_drops(init, id);
        let w = without(init, id);
        assert forall|k: int| 0 <= k < w.len() implies hs.contains(#[trigger] w[k]) by {
            let x = choose|x: int| 0 <= x < init.len() && init[x] == w[k];
            assert(hs[x] == w[k]);
        }
        if hs.last().id != id {
            let ws = w.push(hs.last());
            assert(without(hs, id) == ws);
            assert forall|k: int| 0 <= k < ws.len() implies hs.contains(#[trigger] ws[k]) by {
                if k == w.len() {
                    assert(hs[hs.len() - 1] == ws[k]);
                } else {
                    assert(ws[k] == w[k]);
                }
            }
            assert(!is_active_in(ws, id)) by {
                if is_active_in(ws, id) {
                    let x = choose|x: int| 0 <= x < ws.len() && (#[trigger] ws[x]).id == id;
                    if x < w.len() {
                        assert(ws[x] == w[x]);
                    }
                }
            }
        }
    }
}

proof fn lemma_without_keeps_rows(rows: Seq<TunnelDefinition>, hs: Seq<TunnelHandle>, id: i64)
    requires
        handles_have_rows(rows, hs),
    ensures
        handles_have_rows(rows, without(hs, id)),
{
    lemma_without_drops(hs, id);
    let w = without(hs, id);
    assert forall|i: int| 0 <= i < w.len() implies has_live_row(rows, (#[trigger] w[i]).id) by {
        let j = choose|j: int| 0 <= j < hs.len() && hs[j] == w[i];
        assert(has_live_row(rows, hs[j].id));
    }
}

proof fn lemma_rows_grow_keep_handles(
    rows: Seq<TunnelDefinition>,
    grown: Seq<TunnelDefinition>,
    hs: Seq<TunnelHandle>,
)
    requires
        handles_have_rows(rows, hs),
        grown.len() >= rows.len(),
        forall|i: int| 0 <= i < rows.len() ==> grown[i] == rows[i],
    ensures
        handles_have_rows(grown, hs),
{
    assert forall|i: int| 0 <= i < hs.len() implies has_live_row(grown, (#[trigger] hs[i]).id) by {
        let j = choose|j: int| 0 <= j < rows.len() && (#[trigger] rows[j]).id == hs[i].id && !rows[j].deleted;
        assert(grown[j] == rows[j]);
    }
}

proof fn lemma_edit_keeps_handles(
    rows: Seq<TunnelDefinition>,
    id: i64,
    params: TunnelParams,
    hs: Seq<TunnelHandle>,
)
    requires
        handles_have_rows(rows, hs),
    ensures
        handles_have_rows(rows.map_values(|d: TunnelDefinition| edited_row(d, id, params)), hs),
{
    let edited = rows.map_values(|d: TunnelDefinition| edited_row(d, id, params));
    assert forall|i: int| 0 <= i < hs.len() implies has_live_row(edited, (#[trigger] hs[i]).id) by {
        let j = choose|j: int| 0 <= j < rows.len() && (#[trigger] rows[j]).id == hs[i].id && !rows[j].deleted;
        assert(edited[j] == edited_row(rows[j], id, params));
    }
}

} // verus!
