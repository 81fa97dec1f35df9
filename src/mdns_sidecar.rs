use crate::models::OSCQueryInitError;
use crate::server::Advertisement;
use crate::text::{decimal_string, decimal_text, strings_view};
use vstd::prelude::*;

verus! {

/// How the discovery helper is started: browsing only, or advertising the
/// OSC port, the query port and the service name as well.
pub enum SidecarLaunch {
    Passive,
    Active { osc_port: u16, oscquery_port: u16, service_name: String },
}

/// One started helper process. Its id names the channel that stops it.
pub struct SidecarInstance {
    pub id: u64,
    pub launch: SidecarLaunch,
}

/// A helper process to start.
pub struct SpawnOrder {
    pub instance: u64,
    pub exe_path: String,
    pub launch: SidecarLaunch,
}

/// What reconciliation asks for: first stop the instance `stop`, if any,
/// then start `start`, if any.
pub struct SidecarPlan {
    pub stop: Option<u64>,
    pub start: Option<SpawnOrder>,
}

/// The supervisor of the discovery helper: what is wanted of it, and the
/// instance that runs.
pub struct SidecarState {
    pub client_enabled: bool,
    pub server: Option<Advertisement>,
    pub exe_path: Option<String>,
    pub running: Option<SidecarInstance>,
    pub next_instance: u64,
}

pub enum LaunchView {
    Passive,
    Active(u16, u16, Seq<char>),
}

pub struct SidecarView {
    pub client_enabled: bool,
    pub server: Option<(u16, u16, Seq<char>)>,
    pub exe_path: Option<Seq<char>>,
    pub running: Option<(u64, LaunchView)>,
    pub next_instance: u64,
}

pub struct PlanView {
    pub stop: Option<u64>,
    pub start: Option<(u64, Seq<char>, LaunchView)>,
}

/// The four changes of what is wanted of the helper.
pub enum SidecarEvent {
    ClientStarted,
    ClientStopped,
    ServerStarted(u16, u16, Seq<char>),
    ServerStopped,
}

pub open spec fn launch_view(l: SidecarLaunch) -> LaunchView {
    match l {
        SidecarLaunch::Passive => LaunchView::Passive,
        SidecarLaunch::Active { osc_port, oscquery_port, service_name } => LaunchView::Active(
            osc_port,
            oscquery_port,
            service_name@,
        ),
    }
}

pub open spec fn plan_view(p: SidecarPlan) -> PlanView {
    PlanView {
        stop: p.stop,
        start: match p.start {
            Some(o) => Some((o.instance, o.exe_path@, launch_view(o.launch))),
            None => None,
        },
    }
}

pub open spec fn no_change() -> PlanView {
    PlanView { stop: None, start: None }
}

/// The id after `id`.
pub open spec fn next_id(id: u64) -> u64 {
    if id == u64::MAX {
        0
    } else {
        (id + 1) as u64
    }
}

/// How the helper should run: advertising where the server is enabled,
/// browsing only where only the client is, not at all otherwise.
pub open spec fn desired(v: SidecarView) -> Option<LaunchView> {
    match v.server {
        Some(a) => Some(LaunchView::Active(a.0, a.1, a.2)),
        None => if v.client_enabled {
            Some(LaunchView::Passive)
        } else {
            None
        },
    }
}

/// Brings the running instance in line with what is wanted. An instance
/// that runs as wanted is kept; one that is not wanted is stopped; where
/// one is wanted and none runs as wanted, the old one, if any, is stopped
/// and a new one, with a new id, is started. Without an executable path
/// nothing can be started: the state stays and the result is nothing.
pub open spec fn reconcile(v: SidecarView) -> (SidecarView, Option<PlanView>) {
    match desired(v) {
        None => match v.running {
            Some(r) => (
                SidecarView { running: None, ..v },
                Some(PlanView { stop: Some(r.0), start: None }),
            ),
            None => (v, Some(no_change())),
        },
        Some(l) => if v.running matches Some(r) && r.1 == l {
            (v, Some(no_change()))
        } else {
            match v.exe_path {
                None => (v, None),
                Some(p) => {
                    let id = v.next_instance;
                    (
                        SidecarView {
                            running: Some((id, l)),
                            next_instance: next_id(id),
                            ..v
                        },
                        Some(
                            PlanView {
                                stop: match v.running {
                                    Some(r) => Some(r.0),
                                    None => None,
                                },
                                start: Some((id, p, l)),
                            },
                        ),
                    )
                },
            }
        },
    }
}

/// What is wanted of the helper after `e`.
pub open spec fn apply_event(v: SidecarView, e: SidecarEvent) -> SidecarView {
    match e {
        SidecarEvent::ClientStarted => SidecarView { client_enabled: true, ..v },
        SidecarEvent::ClientStopped => SidecarView { client_enabled: false, ..v },
        SidecarEvent::ServerStarted(o, q, n) => SidecarView { server: Some((o, q, n)), ..v },
        SidecarEvent::ServerStopped => SidecarView { server: None, ..v },
    }
}

/// The effect of an event: the wish changes, then the helper is
/// reconciled with it.
pub open spec fn step(v: SidecarView, e: SidecarEvent) -> (SidecarView, Option<PlanView>) {
    reconcile(apply_event(v, e))
}

/// The arguments of the helper: the id of this process, then, where it
/// advertises, the OSC port, the query port and the service name.
pub open spec fn launch_args(pid: u32, l: LaunchView) -> Seq<Seq<char>> {
    match l {
        LaunchView::Passive => seq![decimal_text(pid as nat)],
        LaunchView::Active(o, q, n) => seq![
            decimal_text(pid as nat),
            decimal_text(o as nat),
            decimal_text(q as nat),
            n,
        ],
    }
}

impl View for SidecarState {
    type V = SidecarView;

    open spec fn view(&self) -> SidecarView {
        SidecarView {
            client_enabled: self.client_enabled,
            server: match self.server {
                Some(a) => Some((a.osc_port, a.oscquery_port, a.service_name@)),
                None => None,
            },
            exe_path: match self.exe_path {
                Some(p) => Some(p@),
                None => None,
            },
            running: match self.running {
                Some(r) => Some((r.id, launch_view(r.launch))),
                None => None,
            },
            next_instance: self.next_instance,
        }
    }
}

/// The running instance, if any, does not have the id that comes next.
pub open spec fn sidecar_wf(v: SidecarView) -> bool {
    v.running matches Some(r) ==> r.0 != v.next_instance
}

fn clone_launch(l: &SidecarLaunch) -> (r: SidecarLaunch)
    ensures
        launch_view(r) == launch_view(*l),
{
    match l {
        SidecarLaunch::Passive => SidecarLaunch::Passive,
        SidecarLaunch::Active { osc_port, oscquery_port, service_name } => SidecarLaunch::Active {
            osc_port: *osc_port,
            oscquery_port: *oscquery_port,
            service_name: service_name.clone(),
        },
    }
}

fn same_launch(a: &SidecarLaunch, b: &SidecarLaunch) -> (r: bool)
    ensures
        r == (launch_view(*a) == launch_view(*b)),
{
    match (a, b) {
        (SidecarLaunch::Passive, SidecarLaunch::Passive) => true,
        (
            SidecarLaunch::Active { osc_port: o1, oscquery_port: q1, service_name: n1 },
            SidecarLaunch::Active { osc_port: o2, oscquery_port: q2, service_name: n2 },
        ) => *o1 == *o2 && *q1 == *q2 && n1.eq(n2),
        _ => false,
    }
}

/// The arguments to start the helper with, from the id of this process.
pub fn sidecar_args(pid: u32, launch: &SidecarLaunch) -> (r: Vec<String>)
    ensures
        strings_view(r@) == launch_args(pid, launch_view(*launch)),
{
    let mut args: Vec<String> = Vec::new();
    args.push(decimal_string(pid));
    match launch {
        SidecarLaunch::Passive => {},
        SidecarLaunch::Active { osc_port, oscquery_port, service_name } => {
            args.push(decimal_string(*osc_port as u32));
            args.push(decimal_string(*oscquery_port as u32));
            args.push(service_name.clone());
        },
    }
    assert(strings_view(args@) =~= launch_args(pid, launch_view(*launch)));
    args
}

/// `r` is the outcome that `expected` describes: a plan, or the error of a
/// missing executable.
pub open spec fn outcome_is(r: Result<SidecarPlan, OSCQueryInitError>, expected: Option<PlanView>) -> bool {
    match expected {
        Some(p) => r matches Ok(plan) && plan_view(plan) == p,
        None => r matches Err(OSCQueryInitError::MDNSExecutableNotFound),
    }
}

impl SidecarState {
    pub fn new() -> (r: SidecarState)
        ensures
            sidecar_wf(r@),
            !r@.client_enabled,
            r@.server is None,
            r@.exe_path is None,
            r@.running is None,
    {
        SidecarState {
            client_enabled: false,
            server: None,
            exe_path: None,
            running: None,
            next_instance: 0,
        }
    }

    /// Records the path of the helper executable, which the caller found
    /// to be a file or not.
    pub fn set_exe_path(&mut self, path_str: String, is_file: bool) -> (r: Result<(), OSCQueryInitError>)
        ensures
            !is_file ==> (r matches Err(OSCQueryInitError::MDNSExecutableNotFound)) && *final(self)
                == *old(self),
            is_file ==> r is Ok && final(self)@ == (SidecarView {
                exe_path: Some(path_str@),
                ..old(self)@
            }),
    {
        if !is_file {
            return Err(OSCQueryInitError::MDNSExecutableNotFound);
        }
        self.exe_path = Some(path_str);
        Ok(())
    }

    fn desired_launch(&self) -> (r: Option<SidecarLaunch>)
        ensures
            match desired(self@) {
                Some(l) => r is Some && launch_view(r->0) == l,
                None => r is None,
            },
    {
        match &self.server {
            Some(a) => Some(
                SidecarLaunch::Active {
                    osc_port: a.osc_port,
                    oscquery_port: a.oscquery_port,
                    service_name: a.service_name.clone(),
                },
            ),
            None => if self.client_enabled {
                Some(SidecarLaunch::Passive)
            } else {
                None
            },
        }
    }

    /// Reconciles the helper with what is wanted of it.
    fn reevaluate_sidecar_state(&mut self) -> (r: Result<SidecarPlan, OSCQueryInitError>)
        requires
            sidecar_wf(old(self)@),
        ensures
            sidecar_wf(final(self)@),
            final(self)@ == reconcile(old(self)@).0,
            outcome_is(r, reconcile(old(self)@).1),
    {
        let want = self.desired_launch();
        match want {
            None => match &self.running {
                Some(inst) => {
                    let id = inst.id;
                    self.running = None;
                    Ok(SidecarPlan { stop: Some(id), start: None })
                },
                None => Ok(SidecarPlan { stop: None, start: None }),
            },
            Some(l) => {
                let keep = match &self.running {
                    Some(inst) => same_launch(&inst.launch, &l),
                    None => false,
                };
                if keep {
                    return Ok(SidecarPlan { stop: None, start: None });
                }
                match &self.exe_path {
                    None => Err(OSCQueryInitError::MDNSExecutableNotFound),
                    Some(p) => {
                        let exe_path = p.clone();
                        let stop = match &self.running {
                            Some(inst) => Some(inst.id),
                            None => None,
                        };
                        let id = self.next_instance;
                        self.next_instance = if id == u64::MAX {
                            0
                        } else {
                            id + 1
                        };
                        self.running = Some(SidecarInstance { id, launch: clone_launch(&l) });
                        Ok(SidecarPlan { stop, start: Some(SpawnOrder { instance: id, exe_path, launch: l }) })
                    },
                }
            },
        }
    }

    /// The server advertises `osc_port`, `oscquery_port` and
    /// `service_name` from now on.
    pub fn mark_server_started(&mut self, osc_port: u16, oscquery_port: u16, service_name: String) -> (r:
        Result<SidecarPlan, OSCQueryInitError>)
        requires
            sidecar_wf(old(self)@),
        ensures
            sidecar_wf(final(self)@),
            final(self)@ == step(
                old(self)@,
                SidecarEvent::ServerStarted(osc_port, oscquery_port, service_name@),
            ).0,
            outcome_is(
                r,
                step(old(self)@, SidecarEvent::ServerStarted(osc_port, oscquery_port, service_name@)).1,
            ),
    {
        self.server = Some(Advertisement { osc_port, oscquery_port, service_name });
        self.reevaluate_sidecar_state()
    }

    /// The server advertises nothing from now on.
    pub fn mark_server_stopped(&mut self) -> (r: Result<SidecarPlan, OSCQueryInitError>)
        requires
            sidecar_wf(old(self)@),
        ensures
            sidecar_wf(final(self)@),
            final(self)@ == step(old(self)@, SidecarEvent::ServerStopped).0,
            outcome_is(r, step(old(self)@, SidecarEvent::ServerStopped).1),
    {
        self.server = None;
        self.reevaluate_sidecar_state()
    }

    /// The client browses for the peer from now on.
    pub fn mark_client_started(&mut self) -> (r: Result<SidecarPlan, OSCQueryInitError>)
        requires
            sidecar_wf(old(self)@),
        ensures
            sidecar_wf(final(self)@),
            final(self)@ == step(old(self)@, SidecarEvent::ClientStarted).0,
            outcome_is(r, step(old(self)@, SidecarEvent::ClientStarted).1),
    {
        self.client_enabled = true;
        self.reevaluate_sidecar_state()
    }

    /// The client browses no more.
    pub fn mark_client_stopped(&mut self) -> (r: Result<SidecarPlan, OSCQueryInitError>)
        requires
            sidecar_wf(old(self)@),
        ensures
            sidecar_wf(final(self)@),
            final(self)@ == step(old(self)@, SidecarEvent::ClientStopped).0,
            outcome_is(r, step(old(self)@, SidecarEvent::ClientStopped).1),
    {
        self.client_enabled = false;
        self.reevaluate_sidecar_state()
    }

    /// The instance `instance` could not be started: it counts as stopped
    /// if it is the running one.
    pub fn spawn_failed(&mut self, instance: u64)
        requires
            sidecar_wf(old(self)@),
        ensures
            sidecar_wf(final(self)@),
            (old(self)@.running matches Some(r) && r.0 == instance) ==> final(self)@ == (SidecarView {
                running: None,
                ..old(self)@
            }),
            !(old(self)@.running matches Some(r) && r.0 == instance) ==> final(self)@ == old(self)@,
    {
        let matches_running = match &self.running {
            Some(inst) => inst.id == instance,
            None => false,
        };
        if matches_running {
            self.running = None;
        }
    }

    /// Reading the output of `instance` failed: the helper is at fault, so
    /// the running instance, if it is that one, is to be stopped, and is
    /// returned.
    pub fn output_failed(&mut self, instance: u64) -> (r: Option<u64>)
        requires
            sidecar_wf(old(self)@),
        ensures
            sidecar_wf(final(self)@),
            (old(self)@.running matches Some(x) && x.0 == instance) ==> r == Some(instance)
                && final(self)@ == (SidecarView { running: None, ..old(self)@ }),
            !(old(self)@.running matches Some(x) && x.0 == instance) ==> r is None && final(self)@
                == old(self)@,
    {
        let matches_running = match &self.running {
            Some(inst) => inst.id == instance,
            None => false,
        };
        if matches_running {
            self.running = None;
            Some(instance)
        } else {
            None
        }
    }
}

pub open spec fn running_id(v: SidecarView) -> u64 {
    match v.running {
        Some(r) => r.0,
        None => 0,
    }
}

pub open spec fn running_launch(v: SidecarView) -> LaunchView {
    match v.running {
        Some(r) => r.1,
        None => LaunchView::Passive,
    }
}

/// Reconciliation is idempotent: an event that is applied twice in a row
/// changes nothing the second time. Where the first application gave a
/// plan, the second gives a plan that stops and starts nothing; where the
/// first failed for want of an executable, so does the second.
pub proof fn lemma_repeated_event_changes_nothing(v: SidecarView, e: SidecarEvent)
    ensures
        step(v, e).1 is Some ==> step(step(v, e).0, e) == (step(v, e).0, Some(no_change())),
        step(v, e).1 is None ==> step(step(v, e).0, e).1 is None && step(step(v, e).0, e).0 == step(
            v,
            e,
        ).0,
{
    let v1 = step(v, e).0;
    assert(apply_event(v1, e) == v1);
}

/// A change of the advertised ports or name while the helper runs with
/// other arguments stops exactly the running instance and starts exactly
/// one new instance, under an id that differs from the stopped one, with
/// the new arguments; only the new instance is left running.
pub proof fn lemma_restart_on_new_advertisement(
    v: SidecarView,
    osc_port: u16,
    oscquery_port: u16,
    service_name: Seq<char>,
)
    requires
        sidecar_wf(v),
        v.running is Some,
        running_launch(v) != LaunchView::Active(osc_port, oscquery_port, service_name),
        v.exe_path is Some,
    ensures
        ({
            let (v1, plan) = step(v, SidecarEvent::ServerStarted(osc_port, oscquery_port, service_name));
            let new_id = v.next_instance;
            &&& new_id != running_id(v)
            &&& plan == Some(
                PlanView {
                    stop: Some(running_id(v)),
                    start: Some(
                        (new_id, v.exe_path->0, LaunchView::Active(osc_port, oscquery_port, service_name)),
                    ),
                },
            )
            &&& v1.running == Some((new_id, LaunchView::Active(osc_port, oscquery_port, service_name)))
            &&& sidecar_wf(v1)
        }),
{
}

} // verus!
