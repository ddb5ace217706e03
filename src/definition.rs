//! Tunnel definitions and the catalog that holds them.
//!
//! The catalog is the in-memory table of every definition ever created. Rows
//! are never removed: deleting one sets its `deleted` flag, and deleted rows
//! are left out of every listing and lookup.
use vstd::prelude::*;

verus! {

/// The connection parameters of one tunnel: forward `local_ip:local_port`
/// to `remote_ip:remote_port` as seen from `ssh_server`.
#[derive(Debug)]
pub struct TunnelParams {
    pub name: String,
    pub ssh_server: String,
    pub local_ip: String,
    pub local_port: u16,
    pub remote_ip: String,
    pub remote_port: u16,
}

impl Clone for TunnelParams {
    fn clone(&self) -> (r: Self)
        ensures
            r == *self,
    {
        TunnelParams {
            name: self.name.clone(),
            ssh_server: self.ssh_server.clone(),
            local_ip: self.local_ip.clone(),
            local_port: self.local_port,
            remote_ip: self.remote_ip.clone(),
            remote_port: self.remote_port,
        }
    }
}

/// A stored tunnel: its identifier, its parameters and its soft-delete flag.
#[derive(Debug)]
pub struct TunnelDefinition {
    pub id: i64,
    pub params: TunnelParams,
    pub deleted: bool,
}

impl Clone for TunnelDefinition {
    fn clone(&self) -> (r: Self)
        ensures
            r == *self,
    {
        TunnelDefinition { id: self.id, params: self.params.clone(), deleted: self.deleted }
    }
}

/// Why a catalog operation failed.
#[derive(Debug, Clone, Copy, PartialEq, Eq, Structural)]
pub enum StoreError {
    /// No row (for an update: no live row) has the identifier.
    NotFound,
    /// Every identifier has been handed out.
    IdsExhausted,
    /// A restored row has an identifier that is already taken, or one that
    /// can never be assigned.
    DuplicateId,
}

/// The rows of `rows` that are not deleted, in their order.
pub open spec fn live(rows: Seq<TunnelDefinition>) -> Seq<TunnelDefinition>
    decreases rows.len(),
{
    if rows.len() == 0 {
        Seq::empty()
    } else if rows.last().deleted {
        live(rows.drop_last())
    } else {
        live(rows.drop_last()).push(rows.last())
    }
}

/// Some row of `rows` has identifier `id`.
pub open spec fn has_row(rows: Seq<TunnelDefinition>, id: i64) -> bool {
    exists|i: int| 0 <= i < rows.len() && (#[trigger] rows[i]).id == id
}

/// Some live row of `rows` has identifier `id`.
pub open spec fn has_live_row(rows: Seq<TunnelDefinition>, id: i64) -> bool {
    exists|i: int| 0 <= i < rows.len() && (#[trigger] rows[i]).id == id && !rows[i].deleted
}

/// A fresh, live definition.
pub open spec fn fresh_row(id: i64, params: TunnelParams) -> TunnelDefinition {
    TunnelDefinition { id, params, deleted: false }
}

/// `d` after an edit of tunnel `id` to `params`: only a live row with that
/// identifier changes.
pub open spec fn edited_row(d: TunnelDefinition, id: i64, params: TunnelParams) -> TunnelDefinition {
    if d.id == id && !d.deleted {
        TunnelDefinition { params, ..d }
    } else {
        d
    }
}

/// `d` after a deletion of tunnel `id`.
pub open spec fn deleted_row(d: TunnelDefinition, id: i64) -> TunnelDefinition {
    if d.id == id {
        TunnelDefinition { deleted: true, ..d }
    } else {
        d
    }
}

/// The rows after an edit of tunnel `id` to `params`.
pub open spec fn rows_after_edit(rows: Seq<TunnelDefinition>, id: i64, params: TunnelParams) -> Seq<TunnelDefinition> {
    rows.map_values(|d: TunnelDefinition| edited_row(d, id, params))
}

/// The rows after a deletion of tunnel `id`.
pub open spec fn rows_after_delete(rows: Seq<TunnelDefinition>, id: i64) -> Seq<TunnelDefinition> {
    rows.map_values(|d: TunnelDefinition| deleted_row(d, id))
}

/// The table of tunnel definitions, with the next identifier to hand out.
pub struct Catalog {
    rows: Vec<TunnelDefinition>,
    next_id: i64,
}

impl Catalog {
    /// Every row, deleted ones included, in order of creation.
    pub closed spec fn view(&self) -> Seq<TunnelDefinition> {
        self.rows@
    }

    /// The identifier that the next `create` assigns.
    pub closed spec fn next_id_spec(&self) -> i64 {
        self.next_id
    }

    /// Identifiers are unique and all below the next one to be handed out,
    /// which is positive.
    pub closed spec fn wf(&self) -> bool {
        &&& self.next_id >= 1
        &&& forall|i: int| 0 <= i < self.rows@.len() ==> (#[trigger] self.rows@[i]).id < self.next_id
        &&& forall|i: int, j: int|
            0 <= i < j < self.rows@.len() ==> (#[trigger] self.rows@[i]).id != (#[trigger] self.rows@[j]).id
    }

    /// Every row's identifier is below the next one to be handed out.
    pub proof fn lemma_ids_below_next(&self, i: int)
        requires
            self.wf(),
            0 <= i < self@.len(),
        ensures
            self@[i].id < self.next_id_spec(),
    {
    }

    /// What a well-formed catalog guarantees: the next identifier is
    /// positive, every row's identifier is below it, and no two rows share
    /// an identifier.
    pub proof fn lemma_wf(&self)
        requires
            self.wf(),
        ensures
            self.next_id_spec() >= 1,
            forall|i: int| 0 <= i < self@.len() ==> (#[trigger] self@[i]).id < self.next_id_spec(),
            forall|i: int, j: int| 0 <= i < j < self@.len() ==> (#[trigger] self@[i]).id != (#[trigger] self@[j]).id,
    {
    }

    /// An empty catalog; the first identifier it assigns is 1.
    pub fn new() -> (r: Catalog)
        ensures
            r.wf(),
            r@ == Seq::<TunnelDefinition>::empty(),
            r.next_id_spec() == 1,
    {
        Catalog { rows: Vec::new(), next_id: 1 }
    }

    /// The identifier that the next `create` will assign, if any is left.
    pub fn next_id(&self) -> (r: Option<i64>)
        requires
            self.wf(),
        ensures
            r == (if self.next_id_spec() < i64::MAX {
                Some(self.next_id_spec())
            } else {
                None
            }),
    {
        if self.next_id < i64::MAX {
            Some(self.next_id)
        } else {
            None
        }
    }

    /// Adds a new live definition with the next identifier, which no row
    /// has, and returns that identifier. Nothing is validated here.
    pub fn create(&mut self, params: TunnelParams) -> (r: Result<i64, StoreError>)
        requires
            old(self).wf(),
        ensures
            final(self).wf(),
            old(self).next_id_spec() < i64::MAX ==> {
                &&& r == Ok::<i64, StoreError>(old(self).next_id_spec())
                &&& !has_row(old(self)@, old(self).next_id_spec())
                &&& final(self)@ == old(self)@.push(fresh_row(old(self).next_id_spec(), params))
                &&& final(self).next_id_spec() == old(self).next_id_spec() + 1
            },
            old(self).next_id_spec() == i64::MAX ==> {
                &&& r == Err::<i64, StoreError>(StoreError::IdsExhausted)
                &&& *final(self) == *old(self)
            },
    {
        if self.next_id == i64::MAX {
            return Err(StoreError::IdsExhausted);
        }
        let id = self.next_id;
        self.rows.push(TunnelDefinition { id, params, deleted: false });
        self.next_id = id + 1;
        Ok(id)
    }

    /// Puts back a row read from durable storage, deleted or not. It is
    /// refused, and the catalog left as it was, when a row with the same
    /// identifier is already there or when the identifier is not positive or
    /// is the largest `i64`.
    pub fn restore(&mut self, def: TunnelDefinition) -> (r: Result<(), StoreError>)
        requires
            old(self).wf(),
        ensures
            final(self).wf(),
            r is Ok <==> (def.id >= 1 && def.id < i64::MAX && !has_row(old(self)@, def.id)),
            r is Ok ==> final(self)@ == old(self)@.push(def),
            r is Ok ==> final(self).next_id_spec() == (if def.id >= old(self).next_id_spec() {
                (def.id + 1) as i64
            } else {
                old(self).next_id_spec()
            }),
            r is Err ==> r == Err::<(), StoreError>(StoreError::DuplicateId) && *final(self)
                == *old(self),
    {
        if def.id < 1 || def.id == i64::MAX {
            return Err(StoreError::DuplicateId);
        }
        let mut i: usize = 0;
        while i < self.rows.len()
            invariant
                i <= self.rows@.len(),
                *self == *old(self),
                self.wf(),
                forall|j: int| 0 <= j < i ==> (#[trigger] self.rows@[j]).id != def.id,
            decreases self.rows@.len() - i,
        {
            if self.rows[i].id == def.id {
                return Err(StoreError::DuplicateId);
            }
            i += 1;
        }
        let id = def.id;
        self.rows.push(def);
        if id >= self.next_id {
            self.next_id = id + 1;
        }
        Ok(())
    }

    /// The live definitions, in order of creation.
    pub fn list_active(&self) -> (r: Vec<TunnelDefinition>)
        ensures
            r@ == live(self@),
    {
        let mut out: Vec<TunnelDefinition> = Vec::new();
        let mut i: usize = 0;
        while i < self.rows.len()
            invariant
                i <= self.rows@.len(),
                out@ == live(self.rows@.take(i as int)),
            decreases self.rows@.len() - i,
        {
            proof {
                assert(self.rows@.take(i + 1).drop_last() =~= self.rows@.take(i as int));
            }
            if !self.rows[i].deleted {
                out.push(self.rows[i].clone());
            }
            i += 1;
        }
        proof {
            assert(self.rows@.take(i as int) =~= self.rows@);
        }
        out
    }

    /// The live definition with identifier `id`, if there is one.
    pub fn get(&self, id: i64) -> (r: Option<TunnelDefinition>)
        requires
            self.wf(),
        ensures
            r is Some <==> has_live_row(self@, id),
            r matches Some(d) ==> d.id == id && !d.deleted && self@.contains(d),
    {
        let mut i: usize = 0;
        while i < self.rows.len()
            invariant
                i <= self.rows@.len(),
                forall|j: int|
                    0 <= j < i ==> !((#[trigger] self.rows@[j]).id == id && !self.rows@[j].deleted),
            decreases self.rows@.len() - i,
        {
            if self.rows[i].id == id && !self.rows[i].deleted {
                let d = self.rows[i].clone();
                proof {
                    assert(self@[i as int] == d);
                }
                return Some(d);
            }
            i += 1;
        }
        None
    }

    /// Rewrites the parameters of the live definition `id`; its identifier
    /// stays. Fails with `NotFound` where no live row has that identifier.
    pub fn update(&mut self, id: i64, params: TunnelParams) -> (r: Result<(), StoreError>)
        requires
            old(self).wf(),
        ensures
            final(self).wf(),
            final(self).next_id_spec() == old(self).next_id_spec(),
            r is Ok <==> has_live_row(old(self)@, id),
            r is Err ==> r == Err::<(), StoreError>(StoreError::NotFound),
            final(self)@ == rows_after_edit(old(self)@, id, params),
    {
        let ghost old_rows = self.rows@;
        let mut found = false;
        let mut i: usize = 0;
        while i < self.rows.len()
            invariant
                i <= self.rows@.len(),
                self.rows@.len() == old_rows.len(),
                self.next_id == old(self).next_id,
                old_rows == old(self)@,
                forall|j: int| 0 <= j < i ==> #[trigger] self.rows@[j] == edited_row(old_rows[j], id, params),
                forall|j: int| i <= j < self.rows@.len() ==> #[trigger] self.rows@[j] == old_rows[j],
                found <==> exists|j: int| 0 <= j < i && (#[trigger] old_rows[j]).id == id && !old_rows[j].deleted,
            decreases self.rows@.len() - i,
        {
            if self.rows[i].id == id && !self.rows[i].deleted {
                let row = TunnelDefinition { id, params: params.clone(), deleted: false };
                self.rows.set(i, row);
                found = true;
            }
            i += 1;
        }
        proof {
            assert(self.rows@ =~= old_rows.map_values(|d: TunnelDefinition| edited_row(d, id, params)));
            assert forall|a: int| 0 <= a < self.rows@.len() implies (#[trigger] self.rows@[a]).id < self.next_id by {
                assert(self.rows@[a].id == old_rows[a].id);
            }
            assert forall|a: int, b: int| 0 <= a < b < self.rows@.len() implies (#[trigger] self.rows@[a]).id != (#[trigger] self.rows@[b]).id by {
                assert(self.rows@[a].id == old_rows[a].id);
                assert(self.rows@[b].id == old_rows[b].id);
            }
        }
        if found {
            Ok(())
        } else {
            Err(StoreError::NotFound)
        }
    }

    /// Marks definition `id` deleted. Deleting a row that is already deleted
    /// succeeds and changes nothing; an identifier that no row has gives
    /// `NotFound`.
    pub fn soft_delete(&mut self, id: i64) -> (r: Result<(), StoreError>)
        requires
            old(self).wf(),
        ensures
            final(self).wf(),
            final(self).next_id_spec() == old(self).next_id_spec(),
            r is Ok <==> has_row(old(self)@, id),
            r is Err ==> r == Err::<(), StoreError>(StoreError::NotFound),
            final(self)@ == rows_after_delete(old(self)@, id),
    {
        let ghost old_rows = self.rows@;
        let mut found = false;
        let mut i: usize = 0;
        while i < self.rows.len()
            invariant
                i <= self.rows@.len(),
                self.rows@.len() == old_rows.len(),
                self.next_id == old(self).next_id,
                old_rows == old(self)@,
                forall|j: int| 0 <= j < i ==> #[trigger] self.rows@[j] == deleted_row(old_rows[j], id),
                forall|j: int| i <= j < self.rows@.len() ==> #[trigger] self.rows@[j] == old_rows[j],
                found <==> exists|j: int| 0 <= j < i && (#[trigger] old_rows[j]).id == id,
            decreases self.rows@.len() - i,
        {
            if self.rows[i].id == id {
                let row = TunnelDefinition {
                    id,
                    params: self.rows[i].params.clone(),
                    deleted: true,
                };
                self.rows.set(i, row);
                found = true;
            }
            i += 1;
        }
        proof {
            assert(self.rows@ =~= old_rows.map_values(|d: TunnelDefinition| deleted_row(d, id)));
            assert forall|a: int| 0 <= a < self.rows@.len() implies (#[trigger] self.rows@[a]).id < self.next_id by {
                assert(self.rows@[a].id == old_rows[a].id);
            }
            assert forall|a: int, b: int| 0 <= a < b < self.rows@.len() implies (#[trigger] self.rows@[a]).id != (#[trigger] self.rows@[b]).id by {
                assert(self.rows@[a].id == old_rows[a].id);
                assert(self.rows@[b].id == old_rows[b].id);
            }
        }
        if found {
            Ok(())
        } else {
            Err(StoreError::NotFound)
        }
    }
}

} // verus!
