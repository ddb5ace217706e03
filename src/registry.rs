//! The registry of live forwarding processes.
//!
//! A tunnel is active exactly when the registry holds a handle for it, and
//! it holds at most one handle per tunnel identifier. The processes
//! themselves are launched, probed and killed by the caller; the registry
//! decides what to launch, which launched process to adopt, and which
//! handles to drop.
use vstd::prelude::*;
use crate::definition::TunnelParams;
use crate::port::{decimal_string, decimal_text};

verus! {

/// A live tunnel: the parameters it was launched with and its process id.
#[derive(Debug)]
pub struct TunnelHandle {
    pub id: i64,
    pub params: TunnelParams,
    pub pid: u32,
}

impl Clone for TunnelHandle {
    fn clone(&self) -> (r: Self)
        ensures
            r == *self,
    {
        TunnelHandle { id: self.id, params: self.params.clone(), pid: self.pid }
    }
}

/// What a non-blocking probe of a process found.
#[derive(Debug)]
pub enum Liveness {
    /// It has not exited.
    Running,
    /// It has exited, with this exit code (none where a signal ended it).
    Exited(Option<i32>),
    /// The operating system could not say.
    ProbeFailed(String),
}

impl Clone for Liveness {
    fn clone(&self) -> (r: Self)
        ensures
            r == *self,
    {
        match self {
            Liveness::Running => Liveness::Running,
            Liveness::Exited(c) => Liveness::Exited(*c),
            Liveness::ProbeFailed(e) => Liveness::ProbeFailed(e.clone()),
        }
    }
}

/// What came of launching a forwarding process and probing it at once.
#[derive(Debug)]
pub enum LaunchOutcome {
    /// The process could not be created.
    SpawnFailed(String),
    /// The process was created; this is what the first probe found.
    Probed(Liveness),
}

/// Why a tunnel could not be started or changed.
#[derive(Debug)]
pub enum TunnelError {
    /// The forwarding process could not be created.
    SpawnFailed(String),
    /// The forwarding process had already exited when first probed.
    ProcessExitedImmediately(Option<i32>),
    /// The first probe of the forwarding process failed.
    ProbeFailed(String),
    /// A handle for the tunnel already exists; the new process was not
    /// adopted.
    AlreadyRunning,
    /// No live definition has the identifier.
    NotFound,
}

/// A program and its arguments.
#[derive(Debug)]
pub struct LaunchCommand {
    pub program: String,
    pub args: Vec<String>,
}

/// What to do for a start request.
#[derive(Debug)]
pub enum StartPlan {
    /// A handle exists: nothing is to be launched.
    AlreadyRunning,
    /// Launch this command, probe it, and report with `finish_start`.
    Launch(LaunchCommand),
}

/// The record of one handle that the liveness sweep dropped.
#[derive(Debug)]
pub struct Diagnostic {
    pub id: i64,
    pub name: String,
    pub pid: u32,
    pub cause: Liveness,
}

/// The forward specification `local_ip:local_port:remote_ip:remote_port`.
pub open spec fn forward_text(p: TunnelParams) -> Seq<char> {
    p.local_ip@ + seq![':'] + decimal_text(p.local_port as nat) + seq![':'] + p.remote_ip@
        + seq![':'] + decimal_text(p.remote_port as nat)
}

/// The arguments of the ssh client for tunnel `p`: no remote command, port
/// 22 of the server, one local forward.
pub open spec fn ssh_args_spec(p: TunnelParams) -> Seq<Seq<char>> {
    seq![seq!['-', 'N'], seq!['-', 'p'], seq!['2', '2'], p.ssh_server@, seq!['-', 'L'], forward_text(p)]
}

/// The program that forwards the ports.
pub open spec fn ssh_program() -> Seq<char> {
    seq!['s', 's', 'h']
}

/// The command as plain text: program and arguments.
pub open spec fn command_view(c: LaunchCommand) -> (Seq<char>, Seq<Seq<char>>) {
    (c.program@, c.args@.map_values(|a: String| a@))
}

fn from_literal(s: &str) -> (r: String)
    ensures
        r@ == s@,
{
    String::from_str(s)
}

/// Builds `local_ip:local_port:remote_ip:remote_port` for `p`.
pub fn forward_spec(p: &TunnelParams) -> (r: String)
    ensures
        r@ == forward_text(*p),
{
    proof {
        reveal_strlit(":");
    }
    let mut s = p.local_ip.clone();
    s.append(":");
    let lp = decimal_string(p.local_port);
    s.append(lp.as_str());
    s.append(":");
    s.append(p.remote_ip.as_str());
    s.append(":");
    let rp = decimal_string(p.remote_port);
    s.append(rp.as_str());
    proof {
        assert(s@ =~= forward_text(*p));
    }
    s
}

/// The ssh invocation that forwards the ports of `p`.
pub fn ssh_command(p: &TunnelParams) -> (r: LaunchCommand)
    ensures
        command_view(r) == (ssh_program(), ssh_args_spec(*p)),
{
    proof {
        reveal_strlit("ssh");
        reveal_strlit("-N");
        reveal_strlit("-p");
        reveal_strlit("22");
        reveal_strlit("-L");
    }
    let mut args: Vec<String> = Vec::new();
    args.push(from_literal("-N"));
    args.push(from_literal("-p"));
    args.push(from_literal("22"));
    args.push(p.ssh_server.clone());
    args.push(from_literal("-L"));
    args.push(forward_spec(p));
    let r = LaunchCommand { program: from_literal("ssh"), args };
    proof {
        assert(r.args@[0]@ =~= seq!['-', 'N']);
        assert(r.args@[1]@ =~= seq!['-', 'p']);
        assert(r.args@[2]@ =~= seq!['2', '2']);
        assert(r.args@[4]@ =~= seq!['-', 'L']);
        assert(r.args@.map_values(|a: String| a@) =~= ssh_args_spec(*p));
        assert(r.program@ =~= ssh_program());
    }
    r
}

/// Some handle of `hs` belongs to tunnel `id`.
pub open spec fn is_active_in(hs: Seq<TunnelHandle>, id: i64) -> bool {
    exists|i: int| 0 <= i < hs.len() && (#[trigger] hs[i]).id == id
}

/// No two handles of `hs` belong to the same tunnel.
pub open spec fn unique_ids(hs: Seq<TunnelHandle>) -> bool {
    forall|i: int, j: int| 0 <= i < j < hs.len() ==> (#[trigger] hs[i]).id != (#[trigger] hs[j]).id
}

/// `hs` without the handles of tunnel `id`.
pub open spec fn without(hs: Seq<TunnelHandle>, id: i64) -> Seq<TunnelHandle>
    decreases hs.len(),
{
    if hs.len() == 0 {
        Seq::empty()
    } else if hs.last().id == id {
        without(hs.drop_last(), id)
    } else {
        without(hs.drop_last(), id).push(hs.last())
    }
}

/// The handles after a start of tunnel `id` whose launch ended in `outcome`:
/// a new handle is added only where none existed and the process was
/// running at its first probe.
pub open spec fn after_start(
    hs: Seq<TunnelHandle>,
    id: i64,
    params: TunnelParams,
    pid: u32,
    outcome: LaunchOutcome,
) -> Seq<TunnelHandle> {
    if !is_active_in(hs, id) && outcome == LaunchOutcome::Probed(Liveness::Running) {
        hs.push(TunnelHandle { id, params, pid })
    } else {
        hs
    }
}

/// What a start of tunnel `id` whose launch ended in `outcome` returns.
pub open spec fn start_result(
    hs: Seq<TunnelHandle>,
    id: i64,
    outcome: LaunchOutcome,
) -> Result<(), TunnelError> {
    if is_active_in(hs, id) {
        Err(TunnelError::AlreadyRunning)
    } else {
        match outcome {
            LaunchOutcome::SpawnFailed(e) => Err(TunnelError::SpawnFailed(e)),
            LaunchOutcome::Probed(Liveness::Running) => Ok(()),
            LaunchOutcome::Probed(Liveness::Exited(c)) => Err(TunnelError::ProcessExitedImmediately(c)),
            LaunchOutcome::Probed(Liveness::ProbeFailed(e)) => Err(TunnelError::ProbeFailed(e)),
        }
    }
}

/// The first probe reported for tunnel `id`, if any.
pub open spec fn probe_of(probes: Seq<(i64, Liveness)>, id: i64) -> Option<Liveness>
    decreases probes.len(),
{
    if probes.len() == 0 {
        None
    } else if probes[0].0 == id {
        Some(probes[0].1)
    } else {
        probe_of(probes.drop_first(), id)
    }
}

/// The probes report tunnel `id` dead: its first probe found it exited, or
/// failed.
pub open spec fn is_dead(probes: Seq<(i64, Liveness)>, id: i64) -> bool {
    match probe_of(probes, id) {
        Some(l) => !(l is Running),
        None => false,
    }
}

/// The handles that the sweep keeps, in order.
pub open spec fn survivors(hs: Seq<TunnelHandle>, probes: Seq<(i64, Liveness)>) -> Seq<TunnelHandle>
    decreases hs.len(),
{
    if hs.len() == 0 {
        Seq::empty()
    } else if is_dead(probes, hs.last().id) {
        survivors(hs.drop_last(), probes)
    } else {
        survivors(hs.drop_last(), probes).push(hs.last())
    }
}

/// The diagnostic for a dropped handle.
pub open spec fn diagnose(h: TunnelHandle, probes: Seq<(i64, Liveness)>) -> (i64, Seq<char>, u32, Liveness) {
    (h.id, h.params.name@, h.pid, probe_of(probes, h.id)->0)
}

/// One diagnostic for each handle that the sweep drops, in order.
pub open spec fn deaths(hs: Seq<TunnelHandle>, probes: Seq<(i64, Liveness)>) -> Seq<(i64, Seq<char>, u32, Liveness)>
    decreases hs.len(),
{
    if hs.len() == 0 {
        Seq::empty()
    } else if is_dead(probes, hs.last().id) {
        deaths(hs.drop_last(), probes).push(diagnose(hs.last(), probes))
    } else {
        deaths(hs.drop_last(), probes)
    }
}

/// A diagnostic as plain values.
pub open spec fn diagnostic_view(d: Diagnostic) -> (i64, Seq<char>, u32, Liveness) {
    (d.id, d.name@, d.pid, d.cause)
}

/// The liveness registry: one handle per active tunnel.
pub struct Registry {
    handles: Vec<TunnelHandle>,
}

impl Registry {
    /// The handles, in order of start.
    pub closed spec fn view(&self) -> Seq<TunnelHandle> {
        self.handles@
    }

    /// At most one handle per tunnel.
    pub open spec fn wf(&self) -> bool {
        unique_ids(self@)
    }

    /// A registry with no handle.
    pub fn new() -> (r: Registry)
        ensures
            r.wf(),
            r@ == Seq::<TunnelHandle>::empty(),
    {
        Registry { handles: Vec::new() }
    }

    /// The number of live handles.
    pub fn len(&self) -> (r: usize)
        ensures
            r == self@.len(),
    {
        self.handles.len()
    }

    fn index_of(&self, id: i64) -> (r: Option<usize>)
        ensures
            r is Some <==> is_active_in(self@, id),
            r matches Some(i) ==> i < self@.len() && self@[i as int].id == id,
    {
        let mut i: usize = 0;
        while i < self.handles.len()
            invariant
                i <= self.handles@.len(),
                forall|j: int| 0 <= j < i ==> (#[trigger] self.handles@[j]).id != id,
            decreases self.handles@.len() - i,
        {
            if self.handles[i].id == id {
                return Some(i);
            }
            i += 1;
        }
        None
    }

    /// Whether tunnel `id` has a handle. The process is not probed here.
    pub fn is_active(&self, id: i64) -> (r: bool)
        ensures
            r == is_active_in(self@, id),
    {
        self.index_of(id).is_some()
    }

    /// The process id of tunnel `id`'s handle, if it has one.
    pub fn pid_of(&self, id: i64) -> (r: Option<u32>)
        requires
            self.wf(),
        ensures
            r is Some <==> is_active_in(self@, id),
            forall|i: int| 0 <= i < self@.len() && (#[trigger] self@[i]).id == id ==> r == Some(self@[i].pid),
    {
        match self.index_of(id) {
            Some(i) => Some(self.handles[i].pid),
            None => None,
        }
    }

    /// The identifiers of the live handles, in order of start.
    pub fn active_ids(&self) -> (r: Vec<i64>)
        ensures
            r@ == self@.map_values(|h: TunnelHandle| h.id),
    {
        let mut out: Vec<i64> = Vec::new();
        let mut i: usize = 0;
        while i < self.handles.len()
            invariant
                i <= self.handles@.len(),
                out@ == self@.take(i as int).map_values(|h: TunnelHandle| h.id),
            decreases self.handles@.len() - i,
        {
            out.push(self.handles[i].id);
            i += 1;
            proof {
                assert(out@ =~= self@.take(i as int).map_values(|h: TunnelHandle| h.id));
            }
        }
        proof {
            assert(self@.take(i as int) =~= self@);
        }
        out
    }

    /// What a start of tunnel `id` with `params` calls for: nothing where a
    /// handle exists, else the ssh command to launch.
    pub fn plan_start(&self, id: i64, params: &TunnelParams) -> (r: StartPlan)
        ensures
            r is AlreadyRunning <==> is_active_in(self@, id),
            r matches StartPlan::Launch(c) ==> command_view(c) == (ssh_program(), ssh_args_spec(*params)),
    {
        if self.is_active(id) {
            StartPlan::AlreadyRunning
        } else {
            StartPlan::Launch(ssh_command(params))
        }
    }

    /// Records how the launch of tunnel `id` went. The process, with id
    /// `pid`, is adopted only where no handle exists and it was running at
    /// its first probe; otherwise the caller still owns it.
    pub fn finish_start(
        &mut self,
        id: i64,
        params: TunnelParams,
        pid: u32,
        outcome: LaunchOutcome,
    ) -> (r: Result<(), TunnelError>)
        requires
            old(self).wf(),
        ensures
            final(self).wf(),
            final(self)@ == after_start(old(self)@, id, params, pid, outcome),
            r == start_result(old(self)@, id, outcome),
    {
        if self.is_active(id) {
            return Err(TunnelError::AlreadyRunning);
        }
        match outcome {
            LaunchOutcome::SpawnFailed(e) => Err(TunnelError::SpawnFailed(e)),
            LaunchOutcome::Probed(Liveness::Exited(c)) => Err(TunnelError::ProcessExitedImmediately(c)),
            LaunchOutcome::Probed(Liveness::ProbeFailed(e)) => Err(TunnelError::ProbeFailed(e)),
            LaunchOutcome::Probed(Liveness::Running) => {
                self.handles.push(TunnelHandle { id, params, pid });
                proof {
                    assert forall|i: int, j: int| 0 <= i < j < self.handles@.len() implies (#[trigger] self.handles@[i]).id != (#[trigger] self.handles@[j]).id by {
                        if j == self.handles@.len() - 1 {
                            assert(old(self).handles@[i] == self.handles@[i]);
                        }
                    }
                }
                Ok(())
            },
        }
    }

    /// Drops the handle of tunnel `id` and hands it back, so that its
    /// process can be killed. Without a handle nothing changes.
    pub fn stop(&mut self, id: i64) -> (r: Option<TunnelHandle>)
        requires
            old(self).wf(),
        ensures
            final(self).wf(),
            final(self)@ == without(old(self)@, id),
            r is Some <==> is_active_in(old(self)@, id),
            r matches Some(h) ==> h.id == id && old(self)@.contains(h),
    {
        let ghost hs = self.handles@;
        let mut kept: Vec<TunnelHandle> = Vec::new();
        let mut taken: Option<TunnelHandle> = None;
        let mut i: usize = 0;
        while i < self.handles.len()
            invariant
                hs == self.handles@,
                hs == old(self)@,
                unique_ids(hs),
                i <= hs.len(),
                kept@ == without(hs.take(i as int), id),
                forall|k: int| 0 <= k < kept@.len() ==> hs.take(i as int).contains(#[trigger] kept@[k]),
                taken is Some <==> is_active_in(hs.take(i as int), id),
                taken matches Some(h) ==> h.id == id && hs.contains(h),
            decreases hs.len() - i,
        {
            let h = self.handles[i].clone();
            proof {
                assert(hs.take(i + 1).drop_last() =~= hs.take(i as int));
                assert(hs.take(i + 1)[i as int] == h);
                assert forall|k: int| 0 <= k < kept@.len() implies hs.take(i + 1).contains(#[trigger] kept@[k]) by {
                    let w = choose|w: int| 0 <= w < hs.take(i as int).len() && hs.take(i as int)[w] == kept@[k];
                    assert(hs.take(i + 1)[w] == kept@[k]);
                }
                if is_active_in(hs.take(i as int), id) {
                    let w = choose|w: int| 0 <= w < hs.take(i as int).len() && (#[trigger] hs.take(i as int)[w]).id == id;
                    assert(hs.take(i + 1)[w].id == id);
                }
                if is_active_in(hs.take(i + 1), id) && h.id != id {
                    let w = choose|w: int| 0 <= w < hs.take(i + 1).len() && (#[trigger] hs.take(i + 1)[w]).id == id;
                    assert(hs.take(i as int)[w].id == id);
                }
            }
            if h.id == id {
                proof {
                    assert(hs[i as int] == h);
                }
                taken = Some(h);
            } else {
                kept.push(h);
            }
            i += 1;
        }
        proof {
            assert(hs.take(i as int) =~= hs);
            assert forall|a: int, b: int| 0 <= a < b < kept@.len() implies (#[trigger] kept@[a]).id != (#[trigger] kept@[b]).id by {
                lemma_without_unique(hs, id);
            }
        }
        self.handles = kept;
        taken
    }

    /// The liveness sweep. `probes` holds, for tunnel identifiers, what a
    /// non-blocking probe of their processes found; the first entry for an
    /// identifier counts. Every handle whose process was found exited, or
    /// could not be probed, is dropped, with one diagnostic each, in order;
    /// the others stay as they were. No handle is ever added.
    pub fn reconcile(&mut self, probes: &Vec<(i64, Liveness)>) -> (r: Vec<Diagnostic>)
        requires
            old(self).wf(),
        ensures
            final(self).wf(),
            final(self)@ == survivors(old(self)@, probes@),
            r@.map_values(|d: Diagnostic| diagnostic_view(d)) == deaths(old(self)@, probes@),
    {
        let ghost hs = self.handles@;
        let mut kept: Vec<TunnelHandle> = Vec::new();
        let mut dropped: Vec<Diagnostic> = Vec::new();
        let mut i: usize = 0;
        while i < self.handles.len()
            invariant
                hs == self.handles@,
                hs == old(self)@,
                i <= hs.len(),
                kept@ == survivors(hs.take(i as int), probes@),
                dropped@.map_values(|d: Diagnostic| diagnostic_view(d)) == deaths(hs.take(i as int), probes@),
            decreases hs.len() - i,
        {
            let h = self.handles[i].clone();
            proof {
                assert(hs.take(i + 1).drop_last() =~= hs.take(i as int));
                assert(hs.take(i + 1).last() == h);
            }
            match find_probe(probes, h.id) {
                Some(Liveness::Running) | None => {
                    kept.push(h);
                },
                Some(cause) => {
                    let d = Diagnostic { id: h.id, name: h.params.name.clone(), pid: h.pid, cause };
                    dropped.push(d);
                    proof {
                        assert(dropped@.map_values(|d: Diagnostic| diagnostic_view(d)) =~= deaths(
                            hs.take(i + 1),
                            probes@,
                        ));
                    }
                },
            }
            i += 1;
        }
        proof {
            assert(hs.take(i as int) =~= hs);
            lemma_survivors_unique(hs, probes@);
        }
        self.handles = kept;
        dropped
    }

    /// Hands back every handle and leaves the registry empty, so that every
    /// process can be killed at teardown.
    pub fn drain(&mut self) -> (r: Vec<TunnelHandle>)
        ensures
            final(self).wf(),
            final(self)@ == Seq::<TunnelHandle>::empty(),
            r@ == old(self)@,
    {
        let mut out: Vec<TunnelHandle> = Vec::new();
        std::mem::swap(&mut out, &mut self.handles);
        out
    }
}

/// The first probe for `id` in `probes`, if any.
fn find_probe(probes: &Vec<(i64, Liveness)>, id: i64) -> (r: Option<Liveness>)
    ensures
        r == probe_of(probes@, id),
{
    let mut i: usize = 0;
    proof {
        assert(probes@.subrange(0, probes@.len() as int) =~= probes@);
    }
    while i < probes.len()
        invariant
            i <= probes@.len(),
            probe_of(probes@, id) == probe_of(probes@.subrange(i as int, probes@.len() as int), id),
        decreases probes@.len() - i,
    {
        let ghost rest = probes@.subrange(i as int, probes@.len() as int);
        if probes[i].0 == id {
            return Some(probes[i].1.clone());
        }
        proof {
            assert(rest.drop_first() =~= probes@.subrange(i + 1, probes@.len() as int));
        }
        i += 1;
    }
    proof {
        assert(probes@.subrange(i as int, probes@.len() as int).len() == 0);
    }
    None
}

/// The handles kept by the sweep come from `hs`, and no two share an
/// identifier where none did in `hs`.
pub proof fn lemma_survivors_unique(hs: Seq<TunnelHandle>, probes: Seq<(i64, Liveness)>)
    requires
        unique_ids(hs),
    ensures
        unique_ids(survivors(hs, probes)),
        forall|k: int| 0 <= k < survivors(hs, probes).len() ==> hs.contains(#[trigger] survivors(hs, probes)[k]),
    decreases hs.len(),
{
    if hs.len() > 0 {
        let init = hs.drop_last();
        assert(unique_ids(init)) by {
            assert forall|i: int, j: int| 0 <= i < j < init.len() implies (#[trigger] init[i]).id != (#[trigger] init[j]).id by {
                assert(init[i] == hs[i] && init[j] == hs[j]);
            }
        }
        lemma_survivors_unique(init, probes);
        let w = survivors(init, probes);
        assert forall|k: int| 0 <= k < w.len() implies hs.contains(#[trigger] w[k]) by {
            let x = choose|x: int| 0 <= x < init.len() && init[x] == w[k];
            assert(hs[x] == w[k]);
        }
        if !is_dead(probes, hs.last().id) {
            let ws = w.push(hs.last());
            assert(survivors(hs, probes) == ws);
            assert forall|k: int| 0 <= k < ws.len() implies hs.contains(#[trigger] ws[k]) by {
                if k == w.len() {
                    assert(hs[hs.len() - 1] == ws[k]);
                } else {
                    assert(ws[k] == w[k]);
                }
            }
            assert forall|i: int, j: int| 0 <= i < j < ws.len() implies (#[trigger] ws[i]).id != (#[trigger] ws[j]).id by {
                if j == w.len() {
                    assert(ws[i] == w[i]);
                    let x = choose|x: int| 0 <= x < init.len() && init[x] == w[i];
                    assert(hs[x] == w[i]);
                } else {
                    assert(ws[i] == w[i] && ws[j] == w[j]);
                }
            }
        }
    }
}


/// The handles kept by `without` keep their order and come from `hs`; no
/// two share an identifier where none did in `hs`.
pub proof fn lemma_without_unique(hs: Seq<TunnelHandle>, id: i64)
    requires
        unique_ids(hs),
    ensures
        unique_ids(without(hs, id)),
        forall|k: int| 0 <= k < without(hs, id).len() ==> hs.contains(#[trigger] without(hs, id)[k]),
    decreases hs.len(),
{
    if hs.len() > 0 {
        let init = hs.drop_last();
        assert(unique_ids(init)) by {
            assert forall|i: int, j: int| 0 <= i < j < init.len() implies (#[trigger] init[i]).id != (#[trigger] init[j]).id by {
                assert(init[i] == hs[i] && init[j] == hs[j]);
            }
        }
        lemma_without_unique(init, id);
        let w = without(init, id);
        assert forall|k: int| 0 <= k < w.len() implies hs.contains(#[trigger] w[k]) by {
            let x = choose|x: int| 0 <= x < init.len() && init[x] == w[k];
            assert(hs[x] == w[k]);
        }
        if hs.last().id != id {
            let ws = w.push(hs.last());
            assert(without(hs, id) == ws);
            assert forall|k: int| 0 <= k < ws.len() implies hs.contains(#[trigger] ws[k]) by {
                if k == w.len() {
                    assert(hs[hs.len() - 1] == ws[k]);
                } else {
                    assert(ws[k] == w[k]);
                }
            }
            assert forall|i: int, j: int| 0 <= i < j < ws.len() implies (#[trigger] ws[i]).id != (#[trigger] ws[j]).id by {
                if j == w.len() {
                    assert(ws[i] == w[i]);
                    let x = choose|x: int| 0 <= x < init.len() && init[x] == w[i];
                    assert(hs[x] == w[i]);
                } else {
                    assert(ws[i] == w[i] && ws[j] == w[j]);
                }
            }
        }
    }
}

} // verus!
