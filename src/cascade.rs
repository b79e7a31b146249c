//! The ordered cascade of viewer launches: which attempts a connection makes,
//! on which platform and for which protocol, and the state machine that runs
//! them until one spawns.

use vstd::prelude::*;
use crate::config::{Config, Platform};
use crate::profile::{folded_views, remmina_profile_for_vm, resolve_profile, ProfileEntry};
use crate::protocol::{classify, parse_vm_config, RemoteProtocol};
use crate::text::{decimal, joined, lower_of, string_views, text, with_number};

verus! {

/// One viewer launch: the program, its arguments, and whether the child gets
/// the local display in its environment.
pub struct Attempt {
    pub program: String,
    pub args: Vec<String>,
    pub set_display: bool,
}

/// The model of an attempt.
pub struct AttemptSpec {
    pub program: Seq<char>,
    pub args: Seq<Seq<char>>,
    pub set_display: bool,
}

impl View for Attempt {
    type V = AttemptSpec;

    open spec fn view(&self) -> AttemptSpec {
        AttemptSpec { program: self.program@, args: string_views(self.args@), set_display: self.set_display }
    }
}

/// The models of a list of attempts.
pub open spec fn attempt_views(v: Seq<Attempt>) -> Seq<AttemptSpec> {
    v.map_values(|a: Attempt| a@)
}

/// The model of the attempt that runs `program` with `args`.
pub open spec fn rung(program: Seq<char>, args: Seq<Seq<char>>, set_display: bool) -> AttemptSpec {
    AttemptSpec { program, args, set_display }
}

/// A port number as it is written in arguments.
pub open spec fn port_text(port: u16) -> Seq<char> {
    decimal(port as nat)
}

/// The generic client opened on a saved profile.
pub open spec fn profile_rungs(app: Seq<char>, profile: Option<Seq<char>>) -> Seq<AttemptSpec> {
    match profile {
        Some(p) => seq![rung(app, seq!["-c"@, p], true)],
        None => Seq::empty(),
    }
}

/// The remote-desktop viewers of `platform`, in the order they are tried.
pub open spec fn rdp_rungs(platform: Platform, app: Seq<char>, port: u16) -> Seq<AttemptSpec> {
    match platform {
        Platform::Windows => seq![rung("mstsc.exe"@, seq!["/v:127.0.0.1:"@ + port_text(port)], false)],
        Platform::MacOs => seq![rung("open"@, seq!["rdp://127.0.0.1:"@ + port_text(port)], false)],
        Platform::Linux => seq![
            rung(app, seq!["--quiet"@, "-p"@, "rdp"@, "rdp://127.0.0.1:"@ + port_text(port)], true),
            rung(
                "xfreerdp"@,
                seq!["/v:127.0.0.1:"@ + port_text(port), "/f"@, "/dynamic-resolution"@],
                true,
            ),
        ],
    }
}

/// The VNC viewers of `platform`, in the order they are tried.
pub open spec fn vnc_rungs(platform: Platform, app: Seq<char>, port: u16) -> Seq<AttemptSpec> {
    match platform {
        Platform::Windows => seq![
            rung("tvnviewer"@, seq!["127.0.0.1:"@ + port_text(port)], false),
            rung("vncviewer"@, seq!["127.0.0.1:"@ + port_text(port)], false),
        ],
        Platform::MacOs => seq![rung("open"@, seq!["vnc://127.0.0.1:"@ + port_text(port)], false)],
        Platform::Linux => seq![
            rung(app, seq!["--quiet"@, "-p"@, "vnc"@, "vnc://127.0.0.1:"@ + port_text(port)], true),
            rung("vncviewer"@, seq!["127.0.0.1:"@ + port_text(port)], true),
        ],
    }
}

/// The SPICE viewers of `platform`, in the order they are tried.
pub open spec fn spice_rungs(platform: Platform, app: Seq<char>, vm: Seq<char>, port: u16) -> Seq<
    AttemptSpec,
> {
    match platform {
        Platform::Windows => seq![
            rung("virt-viewer"@, seq!["spice://127.0.0.1:"@ + port_text(port)], false),
        ],
        Platform::MacOs => seq![rung("open"@, seq!["spice://127.0.0.1:"@ + port_text(port)], false)],
        Platform::Linux => seq![
            rung(app, seq!["--quiet"@, "-p"@, "spice"@, "spice://127.0.0.1:"@ + port_text(port)], true),
            rung(
                "spicy"@,
                seq!["--title"@, vm, "-h"@, "127.0.0.1"@, "-p"@, port_text(port)],
                true,
            ),
            rung("remote-viewer"@, seq!["spice://127.0.0.1:"@ + port_text(port)], true),
        ],
    }
}

/// The attempts of a connection: the saved profile, if one resolved; then the
/// viewers of the machine's protocol; and after RDP or VNC viewers, the SPICE
/// viewers on the default port.
pub open spec fn connect_plan(
    protocol: RemoteProtocol,
    platform: Platform,
    app: Seq<char>,
    vm: Seq<char>,
    default_spice_port: u16,
    profile: Option<Seq<char>>,
) -> Seq<AttemptSpec> {
    profile_rungs(app, profile) + match protocol {
        RemoteProtocol::Rdp(h) => rdp_rungs(platform, app, h) + spice_rungs(
            platform,
            app,
            vm,
            default_spice_port,
        ),
        RemoteProtocol::Vnc(h) => vnc_rungs(platform, app, h) + spice_rungs(
            platform,
            app,
            vm,
            default_spice_port,
        ),
        RemoteProtocol::Spice(p) => spice_rungs(platform, app, vm, p),
    }
}

/// The attempts of a forced SPICE connection on the default port. Outside
/// Linux the saved profile, if one resolved, comes first.
pub open spec fn force_spice_plan(
    platform: Platform,
    app: Seq<char>,
    vm: Seq<char>,
    default_spice_port: u16,
    profile: Option<Seq<char>>,
) -> Seq<AttemptSpec> {
    (if platform == Platform::Linux {
        Seq::empty()
    } else {
        profile_rungs(app, profile)
    }) + spice_rungs(platform, app, vm, default_spice_port)
}

/// Appends the attempt that runs `program` with `args` to `plan`.
fn push_attempt(plan: &mut Vec<Attempt>, program: String, args: Vec<String>, set_display: bool)
    ensures
        attempt_views(final(plan)@) == attempt_views(old(plan)@).push(
            rung(program@, string_views(args@), set_display),
        ),
{
    let a = Attempt { program, args, set_display };
    plan.push(a);
    assert(attempt_views(final(plan)@) =~= attempt_views(old(plan)@).push(a@));
}

/// Appends the profile attempt, if a profile resolved, to `plan`.
fn push_profile_rungs(plan: &mut Vec<Attempt>, app: &String, profile: &Option<String>)
    ensures
        attempt_views(final(plan)@) == attempt_views(old(plan)@) + profile_rungs(
            app@,
            match profile {
                Some(p) => Some(p@),
                None => None,
            },
        ),
{
    match profile {
        Some(p) => {
            let args = vec![text("-c"), p.clone()];
            assert(string_views(args@) =~= seq!["-c"@, p@]);
            push_attempt(plan, app.clone(), args, true);
        },
        None => {},
    }
    assert(attempt_views(final(plan)@) =~= attempt_views(old(plan)@) + profile_rungs(
        app@,
        match profile {
            Some(p) => Some(p@),
            None => None,
        },
    ));
}

/// Appends the remote-desktop viewers of `platform` to `plan`.
fn push_rdp_rungs(plan: &mut Vec<Attempt>, platform: Platform, app: &String, port: u16)
    ensures
        attempt_views(final(plan)@) == attempt_views(old(plan)@) + rdp_rungs(platform, app@, port),
{
    match platform {
        Platform::Windows => {
            let args = vec![with_number("/v:127.0.0.1:", port)];
            assert(string_views(args@) =~= seq!["/v:127.0.0.1:"@ + port_text(port)]);
            push_attempt(plan, text("mstsc.exe"), args, false);
        },
        Platform::MacOs => {
            let args = vec![with_number("rdp://127.0.0.1:", port)];
            assert(string_views(args@) =~= seq!["rdp://127.0.0.1:"@ + port_text(port)]);
            push_attempt(plan, text("open"), args, false);
        },
        Platform::Linux => {
            let args = vec![text("--quiet"), text("-p"), text("rdp"), with_number("rdp://127.0.0.1:", port)];
            assert(string_views(args@) =~= seq!["--quiet"@, "-p"@, "rdp"@, "rdp://127.0.0.1:"@ + port_text(port)]);
            push_attempt(plan, app.clone(), args, true);
            let args = vec![with_number("/v:127.0.0.1:", port), text("/f"), text("/dynamic-resolution")];
            assert(string_views(args@) =~= seq!["/v:127.0.0.1:"@ + port_text(port), "/f"@, "/dynamic-resolution"@]);
            push_attempt(plan, text("xfreerdp"), args, true);
        },
    }
    assert(attempt_views(final(plan)@) =~= attempt_views(old(plan)@) + rdp_rungs(platform, app@, port));
}

/// Appends the VNC viewers of `platform` to `plan`.
fn push_vnc_rungs(plan: &mut Vec<Attempt>, platform: Platform, app: &String, port: u16)
    ensures
        attempt_views(final(plan)@) == attempt_views(old(plan)@) + vnc_rungs(platform, app@, port),
{
    match platform {
        Platform::Windows => {
            let args = vec![with_number("127.0.0.1:", port)];
            assert(string_views(args@) =~= seq!["127.0.0.1:"@ + port_text(port)]);
            push_attempt(plan, text("tvnviewer"), args, false);
            let args = vec![with_number("127.0.0.1:", port)];
            assert(string_views(args@) =~= seq!["127.0.0.1:"@ + port_text(port)]);
            push_attempt(plan, text("vncviewer"), args, false);
        },
        Platform::MacOs => {
            let args = vec![with_number("vnc://127.0.0.1:", port)];
            assert(string_views(args@) =~= seq!["vnc://127.0.0.1:"@ + port_text(port)]);
            push_attempt(plan, text("open"), args, false);
        },
        Platform::Linux => {
            let args = vec![text("--quiet"), text("-p"), text("vnc"), with_number("vnc://127.0.0.1:", port)];
            assert(string_views(args@) =~= seq!["--quiet"@, "-p"@, "vnc"@, "vnc://127.0.0.1:"@ + port_text(port)]);
            push_attempt(plan, app.clone(), args, true);
            let args = vec![with_number("127.0.0.1:", port)];
            assert(string_views(args@) =~= seq!["127.0.0.1:"@ + port_text(port)]);
            push_attempt(plan, text("vncviewer"), args, true);
        },
    }
    assert(attempt_views(final(plan)@) =~= attempt_views(old(plan)@) + vnc_rungs(platform, app@, port));
}

/// Appends the SPICE viewers of `platform` to `plan`.
fn push_spice_rungs(plan: &mut Vec<Attempt>, platform: Platform, app: &String, vm: &str, port: u16)
    ensures
        attempt_views(final(plan)@) == attempt_views(old(plan)@) + spice_rungs(platform, app@, vm@, port),
{
    match platform {
        Platform::Windows => {
            let args = vec![with_number("spice://127.0.0.1:", port)];
            assert(string_views(args@) =~= seq!["spice://127.0.0.1:"@ + port_text(port)]);
            push_attempt(plan, text("virt-viewer"), args, false);
        },
        Platform::MacOs => {
            let args = vec![with_number("spice://127.0.0.1:", port)];
            assert(string_views(args@) =~= seq!["spice://127.0.0.1:"@ + port_text(port)]);
            push_attempt(plan, text("open"), args, false);
        },
        Platform::Linux => {
            let args = vec![text("--quiet"), text("-p"), text("spice"), with_number("spice://127.0.0.1:", port)];
            assert(string_views(args@) =~= seq!["--quiet"@, "-p"@, "spice"@, "spice://127.0.0.1:"@ + port_text(port)]);
            push_attempt(plan, app.clone(), args, true);
            let args = vec![text("--title"), text(vm), text("-h"), text("127.0.0.1"), text("-p"), with_number("", port)];
            proof {
                reveal_strlit("");
            }
            assert(""@ + port_text(port) =~= port_text(port));
            assert(string_views(args@) =~= seq!["--title"@, vm@, "-h"@, "127.0.0.1"@, "-p"@, port_text(port)]);
            push_attempt(plan, text("spicy"), args, true);
            let args = vec![with_number("spice://127.0.0.1:", port)];
            assert(string_views(args@) =~= seq!["spice://127.0.0.1:"@ + port_text(port)]);
            push_attempt(plan, text("remote-viewer"), args, true);
        },
    }
    assert(attempt_views(final(plan)@) =~= attempt_views(old(plan)@) + spice_rungs(platform, app@, vm@, port));
}

/// The line logged when an attempt spawned its program.
pub open spec fn success_line(a: AttemptSpec) -> Seq<char> {
    "Launched "@ + a.program
}

/// The line logged when an attempt could not spawn its program.
pub open spec fn failure_line(a: AttemptSpec) -> Seq<char> {
    "Could not launch "@ + a.program
}

/// The model of a running cascade: its attempts, how many were made, whether
/// the last one spawned, and the lines logged so far.
pub struct CascadeState {
    pub plan: Seq<AttemptSpec>,
    pub tried: nat,
    pub succeeded: bool,
    pub log: Seq<Seq<char>>,
}

/// A cascade that has made no attempt yet.
pub open spec fn start(plan: Seq<AttemptSpec>) -> CascadeState {
    CascadeState { plan, tried: 0, succeeded: false, log: Seq::empty() }
}

/// Is an attempt still to be made? Only while none has spawned and some remain.
pub open spec fn pending(s: CascadeState) -> bool {
    !s.succeeded && s.tried < s.plan.len()
}

/// The state after the next attempt, which spawned or not.
pub open spec fn step(s: CascadeState, spawned: bool) -> CascadeState {
    let a = s.plan[s.tried as int];
    CascadeState {
        plan: s.plan,
        tried: s.tried + 1,
        succeeded: spawned,
        log: s.log.push(
            if spawned {
                success_line(a)
            } else {
                failure_line(a)
            },
        ),
    }
}

/// The state after the attempts whose spawn outcomes are `outcomes`, in
/// order; outcomes beyond the end of the cascade are not used.
pub open spec fn run(s: CascadeState, outcomes: Seq<bool>) -> CascadeState
    decreases outcomes.len(),
{
    if outcomes.len() == 0 || !pending(s) {
        s
    } else {
        run(step(s, outcomes[0]), outcomes.drop_first())
    }
}

/// A cascade of viewer launches in progress.
pub struct Cascade {
    plan: Vec<Attempt>,
    tried: usize,
    succeeded: bool,
    log: Ghost<Seq<Seq<char>>>,
}

impl View for Cascade {
    type V = CascadeState;

    closed spec fn view(&self) -> CascadeState {
        CascadeState {
            plan: attempt_views(self.plan@),
            tried: self.tried as nat,
            succeeded: self.succeeded,
            log: self.log@,
        }
    }
}

impl Cascade {
    /// The count of attempts made never exceeds the plan.
    pub closed spec fn wf(&self) -> bool {
        self.tried <= self.plan.len()
    }

    /// A cascade over `plan` that has made no attempt yet.
    pub fn new(plan: Vec<Attempt>) -> (r: Cascade)
        ensures
            r.wf(),
            r@ == start(attempt_views(plan@)),
    {
        Cascade { plan, tried: 0, succeeded: false, log: Ghost(Seq::empty()) }
    }

    /// The attempt to make next, while one is pending.
    pub fn next_attempt(&self) -> (r: Option<&Attempt>)
        requires
            self.wf(),
        ensures
            r is Some == pending(self@),
            r matches Some(a) ==> a@ == self@.plan[self@.tried as int],
    {
        if !self.succeeded && self.tried < self.plan.len() {
            Some(&self.plan[self.tried])
        } else {
            None
        }
    }

    /// Records whether the pending attempt spawned; returns the line to log.
    pub fn record(&mut self, spawned: bool) -> (line: String)
        requires
            old(self).wf(),
            pending(old(self)@),
        ensures
            final(self).wf(),
            final(self)@ == step(old(self)@, spawned),
            final(self)@.log.last() == line@,
    {
        let ghost a = self@.plan[self.tried as int];
        let line = if spawned {
            joined("Launched ", self.plan[self.tried].program.as_str())
        } else {
            joined("Could not launch ", self.plan[self.tried].program.as_str())
        };
        self.log = Ghost(self.log@.push(line@));
        self.tried = self.tried + 1;
        self.succeeded = spawned;
        line
    }

    /// Is no attempt pending any more?
    pub fn is_finished(&self) -> (r: bool)
        requires
            self.wf(),
        ensures
            r == !pending(self@),
    {
        self.succeeded || self.tried >= self.plan.len()
    }

    /// Did an attempt spawn?
    pub fn succeeded(&self) -> (r: bool)
        ensures
            r == self@.succeeded,
    {
        self.succeeded
    }
}

/// The profile that the overrides and the listed profiles give the machine `vm`.
pub open spec fn profile_of(
    vm: Seq<char>,
    overrides: Map<Seq<char>, Seq<char>>,
    profiles: Seq<ProfileEntry>,
) -> Option<Seq<char>> {
    resolve_profile(lower_of(vm), overrides, folded_views(profiles))
}

/// The cascade that connects to the machine `vm`, whose definition reads
/// `definition`: its saved profile first, then its protocol's viewers on
/// `cfg.platform`, then SPICE's where an RDP or VNC cascade runs out.
pub fn connect_vm(definition: &str, vm: &str, cfg: &Config, profiles: &Vec<ProfileEntry>) -> (r:
    Cascade)
    ensures
        r.wf(),
        r@ == start(
            connect_plan(
                classify(definition@, cfg.default_spice_port),
                cfg.platform,
                cfg.remote_app@,
                vm@,
                cfg.default_spice_port,
                profile_of(vm@, cfg.overrides@, profiles@),
            ),
        ),
{
    let profile = remmina_profile_for_vm(vm, &cfg.overrides, profiles);
    let protocol = parse_vm_config(definition, cfg.default_spice_port);
    let mut plan: Vec<Attempt> = Vec::new();
    push_profile_rungs(&mut plan, &cfg.remote_app, &profile);
    match protocol {
        RemoteProtocol::Rdp(h) => {
            push_rdp_rungs(&mut plan, cfg.platform, &cfg.remote_app, h);
            push_spice_rungs(&mut plan, cfg.platform, &cfg.remote_app, vm, cfg.default_spice_port);
        },
        RemoteProtocol::Vnc(h) => {
            push_vnc_rungs(&mut plan, cfg.platform, &cfg.remote_app, h);
            push_spice_rungs(&mut plan, cfg.platform, &cfg.remote_app, vm, cfg.default_spice_port);
        },
        RemoteProtocol::Spice(p) => {
            push_spice_rungs(&mut plan, cfg.platform, &cfg.remote_app, vm, p);
        },
    }
    assert(attempt_views(plan@) =~= connect_plan(
        protocol,
        cfg.platform,
        cfg.remote_app@,
        vm@,
        cfg.default_spice_port,
        profile_of(vm@, cfg.overrides@, profiles@),
    ));
    Cascade::new(plan)
}

/// The cascade that connects to the machine `vm` over SPICE on the default
/// port, whatever its definition declares.
pub fn force_spice_connect(vm: &str, cfg: &Config, profiles: &Vec<ProfileEntry>) -> (r: Cascade)
    ensures
        r.wf(),
        r@ == start(
            force_spice_plan(
                cfg.platform,
                cfg.remote_app@,
                vm@,
                cfg.default_spice_port,
                profile_of(vm@, cfg.overrides@, profiles@),
            ),
        ),
{
    let mut plan: Vec<Attempt> = Vec::new();
    if cfg.platform != Platform::Linux {
        let profile = remmina_profile_for_vm(vm, &cfg.overrides, profiles);
        push_profile_rungs(&mut plan, &cfg.remote_app, &profile);
    }
    push_spice_rungs(&mut plan, cfg.platform, &cfg.remote_app, vm, cfg.default_spice_port);
    assert(attempt_views(plan@) =~= force_spice_plan(
        cfg.platform,
        cfg.remote_app@,
        vm@,
        cfg.default_spice_port,
        profile_of(vm@, cfg.overrides@, profiles@),
    ));
    Cascade::new(plan)
}

/// The failure lines of a list of attempts, in order.
pub open spec fn failure_lines(plan: Seq<AttemptSpec>) -> Seq<Seq<char>> {
    plan.map_values(|a: AttemptSpec| failure_line(a))
}

proof fn lemma_run_first_spawn(s: CascadeState, outcomes: Seq<bool>, k: int)
    requires
        !s.succeeded,
        0 <= k < outcomes.len(),
        s.tried + k < s.plan.len(),
        outcomes[k],
        forall|j: int| 0 <= j < k ==> !outcomes[j],
    ensures
        run(s, outcomes).tried == s.tried + k + 1,
        run(s, outcomes).succeeded,
        run(s, outcomes).log.len() == s.log.len() + k + 1,
        run(s, outcomes).plan == s.plan,
    decreases k,
{
    let next = step(s, outcomes[0]);
    if k == 0 {
        assert(run(next, outcomes.drop_first()) == next);
    } else {
        assert(!outcomes[0]);
        lemma_run_first_spawn(next, outcomes.drop_first(), k - 1);
    }
}

/// A cascade stops at the first attempt that spawns: when the first success
/// among the spawn outcomes is the one at position `k`, exactly `k + 1`
/// attempts are made, the cascade has succeeded, and no attempt is pending.
pub proof fn law_stops_at_first_spawn(plan: Seq<AttemptSpec>, outcomes: Seq<bool>, k: int)
    requires
        0 <= k < plan.len(),
        k < outcomes.len(),
        outcomes[k],
        forall|j: int| 0 <= j < k ==> !outcomes[j],
    ensures
        run(start(plan), outcomes).tried == k + 1,
        run(start(plan), outcomes).succeeded,
        !pending(run(start(plan), outcomes)),
        run(start(plan), outcomes).log.len() == k + 1,
{
    lemma_run_first_spawn(start(plan), outcomes, k);
}

proof fn lemma_run_exhausted(s: CascadeState, outcomes: Seq<bool>)
    requires
        !s.succeeded,
        s.tried <= s.plan.len(),
        s.log == failure_lines(s.plan.take(s.tried as int)),
        outcomes.len() >= s.plan.len() - s.tried,
        forall|j: int| 0 <= j < outcomes.len() ==> !outcomes[j],
    ensures
        run(s, outcomes).tried == s.plan.len(),
        !run(s, outcomes).succeeded,
        run(s, outcomes).log == failure_lines(s.plan),
        run(s, outcomes).plan == s.plan,
    decreases outcomes.len(),
{
    if s.tried == s.plan.len() {
        assert(s.plan.take(s.tried as int) =~= s.plan);
    } else {
        let next = step(s, outcomes[0]);
        assert(!outcomes[0]);
        assert(failure_lines(s.plan.take(s.tried + 1 as int)) =~= failure_lines(s.plan.take(s.tried as int)).push(
            failure_line(s.plan[s.tried as int]),
        ));
        lemma_run_exhausted(next, outcomes.drop_first());
    }
}

/// A cascade in which nothing spawns makes every attempt, logs the failure
/// line of each, in order, and ends without success.
pub proof fn law_all_fail(plan: Seq<AttemptSpec>, outcomes: Seq<bool>)
    requires
        outcomes.len() >= plan.len(),
        forall|j: int| 0 <= j < outcomes.len() ==> !outcomes[j],
    ensures
        run(start(plan), outcomes).tried == plan.len(),
        !run(start(plan), outcomes).succeeded,
        !pending(run(start(plan), outcomes)),
        run(start(plan), outcomes).log == failure_lines(plan),
{
    assert(failure_lines(plan.take(0)) =~= Seq::<Seq<char>>::empty());
    lemma_run_exhausted(start(plan), outcomes);
}

/// On Linux a SPICE machine without a saved profile has three viewers; when
/// none of them spawns, exactly three failure lines are logged, one per
/// viewer in order, and the cascade ends without success.
pub proof fn law_linux_spice_exhaustion(app: Seq<char>, vm: Seq<char>, port: u16, default_spice_port: u16)
    ensures
        ({
            let plan = connect_plan(
                RemoteProtocol::Spice(port),
                Platform::Linux,
                app,
                vm,
                default_spice_port,
                None,
            );
            let end = run(start(plan), seq![false, false, false]);
            &&& plan.len() == 3
            &&& end.log == seq![failure_line(plan[0]), failure_line(plan[1]), failure_line(plan[2])]
            &&& !end.succeeded
            &&& !pending(end)
        }),
{
    let plan = connect_plan(RemoteProtocol::Spice(port), Platform::Linux, app, vm, default_spice_port, None);
    assert(plan =~= spice_rungs(Platform::Linux, app, vm, port));
    let outcomes = seq![false, false, false];
    law_all_fail(plan, outcomes);
    assert(failure_lines(plan) =~= seq![failure_line(plan[0]), failure_line(plan[1]), failure_line(plan[2])]);
}

} // verus!
