//! Linux: `resolvectl` sets the name servers of the tunnel device and makes the
//! device the one for every name.
use vstd::prelude::*;

use crate::dns::DnsConfig;
use crate::error::{Error, ErrorKind, ErrorView};
use crate::net::IpAddress;
use crate::text;

verus! {

/// The step that a setup is at. Each but the last two has a run of `resolvectl`
/// pending.
#[derive(Debug, Clone, Copy, PartialEq, Eq, Structural)]
pub enum Stage {
    CheckResolver,
    SetServers,
    SetDomain,
    /// Taking back the name servers.
    Revert,
    Applied,
    Failed,
}

/// A setup as a mathematical value.
pub struct DnsSetupView {
    pub servers: Seq<IpAddress>,
    pub tun_interface: Seq<char>,
    pub stage: Stage,
    pub failure: Option<ErrorView>,
}

/// The error of a configuration without name servers, or that is not enabled.
pub open spec fn empty_configuration() -> ErrorView {
    ErrorView {
        kind: ErrorKind::InvalidInput,
        message: "Cannot apply inherently empty or disabled DNS definitions payload"@,
    }
}

/// The text forms of addresses.
pub open spec fn address_texts(servers: Seq<IpAddress>) -> Seq<Seq<char>> {
    Seq::new(servers.len(), |i: int| servers[i].chars())
}

/// The arguments of `resolvectl` that undo everything for a device.
pub open spec fn revert_args(tun_interface: Seq<char>) -> Seq<Seq<char>> {
    seq!["revert"@, tun_interface]
}

impl DnsSetupView {
    /// The same setup at another stage.
    pub open spec fn at(self, stage: Stage) -> DnsSetupView {
        DnsSetupView { stage, ..self }
    }

    /// The setup when a step failed, at the stage that follows.
    pub open spec fn failing(self, stage: Stage, e: ErrorView) -> DnsSetupView {
        DnsSetupView { stage, failure: Some(e), ..self }
    }

    /// The arguments of the pending run of `resolvectl`.
    pub open spec fn args(self) -> Option<Seq<Seq<char>>> {
        match self.stage {
            Stage::CheckResolver => Some(seq!["--version"@]),
            Stage::SetServers => Some(
                seq!["dns"@, self.tun_interface] + address_texts(self.servers),
            ),
            Stage::SetDomain => Some(seq!["domain"@, self.tun_interface, "~."@]),
            Stage::Revert => Some(revert_args(self.tun_interface)),
            Stage::Applied => None,
            Stage::Failed => None,
        }
    }

    /// The setup after the pending run: whether it reported success, or why it
    /// could not be made.
    pub open spec fn after(self, outcome: Result<bool, ErrorView>) -> DnsSetupView {
        match self.stage {
            Stage::CheckResolver => if outcome == Ok::<bool, ErrorView>(true) {
                self.at(Stage::SetServers)
            } else {
                self.failing(
                    Stage::Failed,
                    ErrorView {
                        kind: ErrorKind::Unsupported,
                        message: "Linux resolvectl required for temporary non-destructive DNS bindings but missing."@,
                    },
                )
            },
            Stage::SetServers => match outcome {
                Err(e) => self.failing(Stage::Failed, e),
                Ok(success) => if success {
                    self.at(Stage::SetDomain)
                } else {
                    self.failing(
                        Stage::Failed,
                        ErrorView {
                            kind: ErrorKind::Other,
                            message: "Failed to configure resolvectl dns servers"@,
                        },
                    )
                },
            },
            Stage::SetDomain => match outcome {
                Err(e) => self.failing(Stage::Failed, e),
                Ok(success) => if success {
                    self.at(Stage::Applied)
                } else {
                    self.failing(
                        Stage::Revert,
                        ErrorView {
                            kind: ErrorKind::Other,
                            message: "Failed to configure resolvectl domain ~."@,
                        },
                    )
                },
            },
            Stage::Revert => self.at(Stage::Failed),
            Stage::Applied => self,
            Stage::Failed => self,
        }
    }
}

/// The setup before anything is done.
pub open spec fn setup_begun(servers: Seq<IpAddress>, tun_interface: Seq<char>) -> DnsSetupView {
    DnsSetupView { servers, tun_interface, stage: Stage::CheckResolver, failure: None }
}

/// The configuration of the resolver on its way. The program runs `resolvectl`
/// with the pending arguments and reports the outcome until nothing is pending.
#[derive(Debug)]
pub struct DnsSetup {
    servers: Vec<IpAddress>,
    tun_interface: String,
    stage: Stage,
    failure: Option<Error>,
}

impl View for DnsSetup {
    type V = DnsSetupView;

    closed spec fn view(&self) -> DnsSetupView {
        DnsSetupView {
            servers: self.servers@,
            tun_interface: self.tun_interface@,
            stage: self.stage,
            failure: match self.failure {
                Some(e) => Some(e@),
                None => None,
            },
        }
    }
}

/// Begins to configure the resolver for a device.
pub fn apply(config: &DnsConfig, tun_interface: &str) -> (r: Result<DnsSetup, Error>)
    ensures
        match r {
            Ok(setup) => config.enabled && config.servers@.len() > 0 && setup@ == setup_begun(
                config.servers@,
                tun_interface@,
            ),
            Err(e) => (!config.enabled || config.servers@.len() == 0) && e@
                == empty_configuration(),
        },
{
    if !config.enabled || config.servers.len() == 0 {
        return Err(
            Error::new(
                ErrorKind::InvalidInput,
                "Cannot apply inherently empty or disabled DNS definitions payload",
            ),
        );
    }
    Ok(
        DnsSetup {
            servers: vstd::slice::slice_to_vec(config.servers.as_slice()),
            tun_interface: tun_interface.to_owned(),
            stage: Stage::CheckResolver,
            failure: None,
        },
    )
}

impl DnsSetup {
    /// The arguments of the run of `resolvectl` that is pending; `None` once the
    /// setup is over.
    pub fn args(&self) -> (args: Option<Vec<String>>)
        ensures
            match args {
                Some(args) => self@.args() == Some(text::strings(args@)),
                None => self@.args() is None,
            },
    {
        let mut args: Vec<String> = Vec::new();
        match self.stage {
            Stage::CheckResolver => {
                args.push("--version".to_owned());
                assert(text::strings(args@) =~= seq!["--version"@]);
            },
            Stage::SetServers => {
                args.push("dns".to_owned());
                args.push(self.tun_interface.clone());
                let ghost head = seq!["dns"@, self.tun_interface@];
                assert(text::strings(args@) =~= head + address_texts(self.servers@.take(0)));
                let mut i: usize = 0;
                while i < self.servers.len()
                    invariant
                        i <= self.servers@.len(),
                        text::strings(args@) == head + address_texts(self.servers@.take(i as int)),
                    decreases self.servers@.len() - i,
                {
                    let ghost before = args@;
                    args.push(self.servers[i].format());
                    assert(text::strings(args@) =~= text::strings(before).push(
                        self.servers@[i as int].chars(),
                    ));
                    i = i + 1;
                    assert(text::strings(args@) =~= head + address_texts(
                        self.servers@.take(i as int),
                    ));
                }
                assert(self.servers@.take(i as int) =~= self.servers@);
            },
            Stage::SetDomain => {
                args.push("domain".to_owned());
                args.push(self.tun_interface.clone());
                args.push("~.".to_owned());
                assert(text::strings(args@) =~= seq!["domain"@, self.tun_interface@, "~."@]);
            },
            Stage::Revert => {
                args.push("revert".to_owned());
                args.push(self.tun_interface.clone());
                assert(text::strings(args@) =~= revert_args(self.tun_interface@));
            },
            Stage::Applied => return None,
            Stage::Failed => return None,
        }
        Some(args)
    }

    /// Goes on with the outcome of the pending run.
    pub fn report(&mut self, outcome: Result<bool, Error>)
        ensures
            final(self)@ == old(self)@.after(
                match outcome {
                    Ok(success) => Ok(success),
                    Err(e) => Err(e@),
                },
            ),
    {
        match self.stage {
            Stage::CheckResolver => {
                let available: bool = match outcome {
                    Ok(success) => success,
                    Err(_) => false,
                };
                if available {
                    self.stage = Stage::SetServers;
                } else {
                    self.failure = Some(
                        Error::new(
                            ErrorKind::Unsupported,
                            "Linux resolvectl required for temporary non-destructive DNS bindings but missing.",
                        ),
                    );
                    self.stage = Stage::Failed;
                }
            },
            Stage::SetServers => match outcome {
                Err(e) => {
                    self.failure = Some(e);
                    self.stage = Stage::Failed;
                },
                Ok(success) => {
                    if success {
                        self.stage = Stage::SetDomain;
                    } else {
                        self.failure = Some(
                            Error::new(
                                ErrorKind::Other,
                                "Failed to configure resolvectl dns servers",
                            ),
                        );
                        self.stage = Stage::Failed;
                    }
                },
            },
            Stage::SetDomain => match outcome {
                Err(e) => {
                    self.failure = Some(e);
                    self.stage = Stage::Failed;
                },
                Ok(success) => {
                    if success {
                        self.stage = Stage::Applied;
                    } else {
                        self.failure = Some(
                            Error::new(
                                ErrorKind::Other,
                                "Failed to configure resolvectl domain ~.",
                            ),
                        );
                        self.stage = Stage::Revert;
                    }
                },
            },
            Stage::Revert => {
                self.stage = Stage::Failed;
            },
            Stage::Applied => {},
            Stage::Failed => {},
        }
    }

    /// The failure, once the setup has failed.
    pub fn failure(&self) -> (e: Option<Error>)
        ensures
            match e {
                Some(e) => self@.stage == Stage::Failed && self@.failure == Some(e@),
                None => self@.stage != Stage::Failed || self@.failure is None,
            },
    {
        match (&self.stage, &self.failure) {
            (Stage::Failed, Some(e)) => Some(e.copy()),
            _ => None,
        }
    }

    /// Keeps the setup for taking it back, once it was applied.
    pub fn into_guard(self) -> (guard: Option<Guard>)
        ensures
            match guard {
                Some(guard) => self@.stage == Stage::Applied && guard.tun_interface()
                    == self@.tun_interface,
                None => self@.stage != Stage::Applied,
            },
    {
        match self.stage {
            Stage::Applied => Some(Guard { tun_interface: self.tun_interface }),
            _ => None,
        }
    }
}

/// A resolver that is configured for a device, and how to take it back.
#[derive(Debug)]
pub struct Guard {
    tun_interface: String,
}

impl Guard {
    /// The device.
    pub closed spec fn tun_interface(&self) -> Seq<char> {
        self.tun_interface@
    }

    /// The arguments of the run of `resolvectl` that takes the configuration back.
    pub fn cleanup(&self) -> (args: Vec<String>)
        ensures
            text::strings(args@) == revert_args(self.tun_interface()),
    {
        let mut args: Vec<String> = Vec::new();
        args.push("revert".to_owned());
        args.push(self.tun_interface.clone());
        assert(text::strings(args@) =~= revert_args(self.tun_interface@));
        args
    }
}

/// Whether name servers are set on the device, when every run that reports success
/// has its effect and every other has none.
pub open spec fn servers_set(setup: DnsSetupView, before: bool, outcome: Result<bool, ErrorView>) -> bool {
    if outcome == Ok::<bool, ErrorView>(true) {
        match setup.stage {
            Stage::SetServers => true,
            Stage::Revert => false,
            _ => before,
        }
    } else {
        before
    }
}

/// The stages at which name servers are set.
pub open spec fn holds_servers(stage: Stage) -> bool {
    stage == Stage::SetDomain || stage == Stage::Revert || stage == Stage::Applied
}

/// An outcome at a stage, when reverting succeeds and the run that sets the domain
/// can be made at all.
pub open spec fn orderly(stage: Stage, outcome: Result<bool, ErrorView>) -> bool {
    &&& stage == Stage::Revert ==> outcome == Ok::<bool, ErrorView>(true)
    &&& stage == Stage::SetDomain ==> outcome is Ok
}

/// The setup after a run of outcomes.
pub open spec fn after_run(setup: DnsSetupView, outcomes: Seq<Result<bool, ErrorView>>) -> DnsSetupView
    decreases outcomes.len(),
{
    if outcomes.len() == 0 {
        setup
    } else {
        after_run(setup, outcomes.drop_last()).after(outcomes.last())
    }
}

/// Whether name servers are set on the device after a run of outcomes.
pub open spec fn servers_set_after_run(
    setup: DnsSetupView,
    before: bool,
    outcomes: Seq<Result<bool, ErrorView>>,
) -> bool
    decreases outcomes.len(),
{
    if outcomes.len() == 0 {
        before
    } else {
        servers_set(
            after_run(setup, outcomes.drop_last()),
            servers_set_after_run(setup, before, outcomes.drop_last()),
            outcomes.last(),
        )
    }
}

/// A setup that fails leaves no name servers behind, and one that is applied has
/// set them, whichever runs fail, as long as reverting succeeds and the run that
/// sets the domain can be made at all.
pub proof fn law_failed_setup_leaves_no_servers(
    servers: Seq<IpAddress>,
    tun_interface: Seq<char>,
    outcomes: Seq<Result<bool, ErrorView>>,
)
    requires
        forall|k: int|
            0 <= k < outcomes.len() ==> orderly(
                after_run(setup_begun(servers, tun_interface), outcomes.take(k)).stage,
                #[trigger] outcomes[k],
            ),
    ensures
        ({
            let begun = setup_begun(servers, tun_interface);
            servers_set_after_run(begun, false, outcomes) == holds_servers(
                after_run(begun, outcomes).stage,
            )
        }),
    decreases outcomes.len(),
{
    let begun = setup_begun(servers, tun_interface);
    if outcomes.len() > 0 {
        let front = outcomes.drop_last();
        assert forall|k: int| 0 <= k < front.len() implies orderly(
            after_run(begun, front.take(k)).stage,
            #[trigger] front[k],
        ) by {
            assert(front.take(k) =~= outcomes.take(k));
            assert(front[k] == outcomes[k]);
        }
        law_failed_setup_leaves_no_servers(servers, tun_interface, front);
        let last = outcomes.len() - 1;
        assert(outcomes.take(last) =~= front);
        assert(orderly(after_run(begun, outcomes.take(last)).stage, outcomes[last]));
    }
}

/// What the resolver is told, run by run: to set every name server, in order, for the
/// tunnel device; to use that device for every name; and, to take it back, to revert that
/// device.
pub proof fn law_resolver_is_told_the_name_servers(
    servers: Seq<IpAddress>,
    tun_interface: Seq<char>,
)
    ensures
        ({
            let begun = setup_begun(servers, tun_interface);
            let first = begun.after(Ok(true));
            let second = first.after(Ok(true));
            let third = second.after(Ok(true));
            let args = first.args()->Some_0;
            &&& begun.args() == Some(seq!["--version"@])
            &&& first.args() is Some
            &&& args.len() == 2 + servers.len()
            &&& args[0] == "dns"@
            &&& args[1] == tun_interface
            &&& forall|i: int| 0 <= i < servers.len() ==> args[2 + i] == (#[trigger] servers[i]).chars()
            &&& second.args() == Some(seq!["domain"@, tun_interface, "~."@])
            &&& third.args() is None
            &&& third.stage == Stage::Applied
            &&& third.failure is None
            &&& revert_args(third.tun_interface) == seq!["revert"@, tun_interface]
        }),
{
}

/// Where the configuration fails, and what is then left to do: without the resolver, or
/// when it refuses the name servers, nothing; when it refuses the domain, to revert the
/// device. The failure says which run failed.
pub proof fn law_where_the_configuration_fails(
    servers: Seq<IpAddress>,
    tun_interface: Seq<char>,
    e: ErrorView,
)
    ensures
        ({
            let begun = setup_begun(servers, tun_interface);
            let first = begun.after(Ok(true));
            let second = first.after(Ok(true));
            let missing = ErrorView {
                kind: ErrorKind::Unsupported,
                message: "Linux resolvectl required for temporary non-destructive DNS bindings but missing."@,
            };
            let refused = begun.after(Ok(false));
            &&& refused.args() is None && refused.stage == Stage::Failed && refused.failure == Some(
                missing,
            )
            &&& begun.after(Err(e)).stage == Stage::Failed && begun.after(Err(e)).failure == Some(
                missing,
            )
            &&& first.after(Ok(false)).stage == Stage::Failed
            &&& first.after(Ok(false)).failure == Some(
                ErrorView {
                    kind: ErrorKind::Other,
                    message: "Failed to configure resolvectl dns servers"@,
                },
            )
            &&& first.after(Err(e)).stage == Stage::Failed && first.after(Err(e)).failure == Some(e)
            &&& second.after(Ok(false)).args() == Some(seq!["revert"@, tun_interface])
            &&& second.after(Ok(false)).failure == Some(
                ErrorView {
                    kind: ErrorKind::Other,
                    message: "Failed to configure resolvectl domain ~."@,
                },
            )
            &&& second.after(Err(e)).stage == Stage::Failed && second.after(Err(e)).failure == Some(
                e,
            )
            &&& forall|outcome: Result<bool, ErrorView>|
                (#[trigger] second.after(Ok(false)).after(outcome)).stage == Stage::Failed
                    && second.after(Ok(false)).after(outcome).failure == second.after(
                    Ok(false),
                ).failure
        }),
{
}

} // verus!
