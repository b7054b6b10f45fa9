//! The decisions of the tasks that bring the Wi-Fi interface up and keep it
//! up.  Each is a state machine: from its phase it names the next thing to
//! ask of the radio or the network stack, and from the answer it takes its
//! next phase and, where it has to wait, the pause in milliseconds.  The tasks
//! that run them do the asking and the waiting.
use vstd::prelude::*;
use crate::network::Role;

verus! {

/// How far the network stack has come up.
#[derive(Clone, Copy, Debug, PartialEq, Eq, Structural)]
pub enum LinkPhase {
    /// Waiting for the link.
    AwaitLink,
    /// The link is up; waiting for the interface's IPv4 configuration.
    AwaitAddress,
    /// The link and the address are up.
    Ready,
}

/// What the waiting task asks of the network stack.
#[derive(Clone, Copy, Debug, PartialEq, Eq, Structural)]
pub enum LinkProbe {
    /// Whether the link is up.
    LinkUp,
    /// Whether the IPv4 configuration is up.
    ConfigUp,
    /// Whether the stack holds an IPv4 configuration.
    AddressAssigned,
}

/// The question asked in a phase; none once ready.
pub open spec fn link_probe_of(role: Role, phase: LinkPhase) -> Option<LinkProbe> {
    match phase {
        LinkPhase::AwaitLink => Some(LinkProbe::LinkUp),
        LinkPhase::AwaitAddress => match role {
            Role::AccessPoint => Some(LinkProbe::ConfigUp),
            Role::Station => Some(LinkProbe::AddressAssigned),
        },
        LinkPhase::Ready => None,
    }
}

/// The pause after a probe of the address has failed, in milliseconds.
pub open spec fn address_retry_ms(role: Role) -> u64 {
    match role {
        Role::AccessPoint => 100,
        Role::Station => 500,
    }
}

/// The next phase and the pause before it, once the phase's probe has been
/// answered: a yes moves on at once, a no stays with a pause of 500 ms while
/// waiting for the link and of `address_retry_ms` while waiting for the address.
pub open spec fn link_next(role: Role, phase: LinkPhase, answer: bool) -> (LinkPhase, Option<u64>) {
    match phase {
        LinkPhase::AwaitLink => if answer {
            (LinkPhase::AwaitAddress, None)
        } else {
            (LinkPhase::AwaitLink, Some(500))
        },
        LinkPhase::AwaitAddress => if answer {
            (LinkPhase::Ready, None)
        } else {
            (LinkPhase::AwaitAddress, Some(address_retry_ms(role)))
        },
        LinkPhase::Ready => (LinkPhase::Ready, None),
    }
}

/// The phase reached from `phase` after the answers `answers`, in order.
pub open spec fn link_run(role: Role, phase: LinkPhase, answers: Seq<bool>) -> LinkPhase
    decreases answers.len(),
{
    if answers.len() == 0 {
        phase
    } else {
        link_next(role, link_run(role, phase, answers.drop_last()), answers.last()).0
    }
}

/// How many of the answers are yes.
pub open spec fn yes_count(answers: Seq<bool>) -> nat
    decreases answers.len(),
{
    if answers.len() == 0 {
        0
    } else {
        yes_count(answers.drop_last()) + if answers.last() {
            1nat
        } else {
            0nat
        }
    }
}

/// How many steps a phase is from the start.
pub open spec fn link_rank(phase: LinkPhase) -> nat {
    match phase {
        LinkPhase::AwaitLink => 0,
        LinkPhase::AwaitAddress => 1,
        LinkPhase::Ready => 2,
    }
}

/// The question to ask in a phase; none once ready.
pub fn link_probe(role: Role, phase: LinkPhase) -> (probe: Option<LinkProbe>)
    ensures
        probe == link_probe_of(role, phase),
{
    match phase {
        LinkPhase::AwaitLink => Some(LinkProbe::LinkUp),
        LinkPhase::AwaitAddress => match role {
            Role::AccessPoint => Some(LinkProbe::ConfigUp),
            Role::Station => Some(LinkProbe::AddressAssigned),
        },
        LinkPhase::Ready => None,
    }
}

/// The next phase and the pause before it, once the phase's probe has been
/// answered.
pub fn link_step(role: Role, phase: LinkPhase, answer: bool) -> (next: (LinkPhase, Option<u64>))
    ensures
        next == link_next(role, phase, answer),
{
    match phase {
        LinkPhase::AwaitLink => if answer {
            (LinkPhase::AwaitAddress, None)
        } else {
            (LinkPhase::AwaitLink, Some(500))
        },
        LinkPhase::AwaitAddress => if answer {
            (LinkPhase::Ready, None)
        } else {
            let ms: u64 = match role {
                Role::AccessPoint => 100,
                Role::Station => 500,
            };
            (LinkPhase::AwaitAddress, Some(ms))
        },
        LinkPhase::Ready => (LinkPhase::Ready, None),
    }
}

/// Each yes moves the wait one phase on, each no leaves it where it is: from
/// any phase, the phase reached is as many phases on as there were yes
/// answers, up to ready.  So the stack is ready only once the link has been
/// seen up and then the address.
pub proof fn lemma_link_run_counts_yes(role: Role, phase: LinkPhase, answers: Seq<bool>)
    ensures
        link_rank(link_run(role, phase, answers)) == if link_rank(phase) + yes_count(answers) < 2 {
            link_rank(phase) + yes_count(answers)
        } else {
            2
        },
    decreases answers.len(),
{
    if answers.len() > 0 {
        lemma_link_run_counts_yes(role, phase, answers.drop_last());
    }
}

/// The wait ends exactly when the stack is ready: whatever the answers so
/// far, there is nothing more to ask once two of them were yes, and until
/// then there is always a question: first whether the link is up, then the
/// role's question about the address.
pub proof fn lemma_link_wait_ends_when_ready(role: Role, answers: Seq<bool>)
    ensures
        link_probe_of(role, link_run(role, LinkPhase::AwaitLink, answers)) is None <==> yes_count(
            answers,
        ) >= 2,
        yes_count(answers) == 0 ==> link_probe_of(role, link_run(role, LinkPhase::AwaitLink, answers))
            == Some(LinkProbe::LinkUp),
        yes_count(answers) == 1 ==> link_probe_of(role, link_run(role, LinkPhase::AwaitLink, answers))
            == Some(
            if role == Role::AccessPoint {
                LinkProbe::ConfigUp
            } else {
                LinkProbe::AddressAssigned
            },
        ),
{
    lemma_link_run_counts_yes(role, LinkPhase::AwaitLink, answers);
    let ph = link_run(role, LinkPhase::AwaitLink, answers);
    match ph {
        LinkPhase::AwaitLink => assert(link_rank(ph) == 0),
        LinkPhase::AwaitAddress => assert(link_rank(ph) == 1),
        LinkPhase::Ready => assert(link_rank(ph) == 2),
    }
}

/// A yes answer moves the wait on at once; a no keeps it where it is and
/// pauses: half a second while waiting for the link, and while waiting for
/// the address a tenth of a second for the access point and half a second
/// for the station.  Once ready, the wait stays ready.
pub proof fn lemma_link_pauses(role: Role, phase: LinkPhase, answer: bool)
    ensures
        phase != LinkPhase::Ready && answer ==> link_next(role, phase, answer).1 is None
            && link_rank(link_next(role, phase, answer).0) == link_rank(phase) + 1,
        phase != LinkPhase::Ready && !answer ==> link_next(role, phase, answer).0 == phase,
        phase == LinkPhase::AwaitLink && !answer ==> link_next(role, phase, answer).1 == Some(
            500u64,
        ),
        phase == LinkPhase::AwaitAddress && !answer ==> link_next(role, phase, answer).1 == Some(
            if role == Role::AccessPoint {
                100u64
            } else {
                500u64
            },
        ),
        phase == LinkPhase::Ready ==> link_next(role, phase, answer) == (LinkPhase::Ready, None::<u64>),
{
}

/// Where the task that keeps the interface up stands.
#[derive(Clone, Copy, Debug, PartialEq, Eq, Structural)]
pub enum ConnectionPhase {
    /// About to ask whether the interface is up: the access point started, or
    /// the station connected.
    CheckActive,
    /// The interface is up: waiting for it to go down.
    AwaitDrop,
    /// It went down: pausing before the next check.
    Cooldown,
    /// About to ask whether the radio has been started.
    CheckStarted,
    /// The radio is not started: about to configure it.
    Configure,
    /// Configured: about to start the radio.
    Start,
    /// Started as a station: about to connect to the network.
    Connect,
    /// Connecting failed: pausing before the next check.
    RetryCooldown,
    /// Configuring or starting the radio failed: the task stops.
    Halted,
}

/// What the task does in a phase.
#[derive(Clone, Copy, Debug, PartialEq, Eq, Structural)]
pub enum ConnectionCommand {
    /// Ask whether the interface is up (the access point started, or the
    /// station connected); the answer is the outcome.
    ProbeActive,
    /// Wait for the event of the interface going down (the access point
    /// stopped, or the station disconnected).
    WaitForDrop,
    /// Pause for the given number of milliseconds.
    Sleep(u64),
    /// Ask whether the radio reports that it is started; an error counts as no.
    ProbeStarted,
    /// Give the radio the configuration of the role; the outcome is whether
    /// that succeeded.
    ApplyConfig,
    /// Start the radio; the outcome is whether that succeeded.
    StartRadio,
    /// Connect to the network; the outcome is whether that succeeded.
    ConnectToNetwork,
    /// Stop the task on a failure.
    Halt,
}

/// The pause after the interface went down, or after a failed connection.
pub open spec fn retry_pause_ms() -> u64 {
    5000
}

/// What the task does in a phase.
pub open spec fn command_of(phase: ConnectionPhase) -> ConnectionCommand {
    match phase {
        ConnectionPhase::CheckActive => ConnectionCommand::ProbeActive,
        ConnectionPhase::AwaitDrop => ConnectionCommand::WaitForDrop,
        ConnectionPhase::Cooldown => ConnectionCommand::Sleep(retry_pause_ms()),
        ConnectionPhase::CheckStarted => ConnectionCommand::ProbeStarted,
        ConnectionPhase::Configure => ConnectionCommand::ApplyConfig,
        ConnectionPhase::Start => ConnectionCommand::StartRadio,
        ConnectionPhase::Connect => ConnectionCommand::ConnectToNetwork,
        ConnectionPhase::RetryCooldown => ConnectionCommand::Sleep(retry_pause_ms()),
        ConnectionPhase::Halted => ConnectionCommand::Halt,
    }
}

/// The phase after a phase's command, given its outcome (ignored by the
/// commands that have none).
pub open spec fn connection_next(role: Role, phase: ConnectionPhase, outcome: bool) -> ConnectionPhase {
    match phase {
        ConnectionPhase::CheckActive => if outcome {
            ConnectionPhase::AwaitDrop
        } else {
            ConnectionPhase::CheckStarted
        },
        ConnectionPhase::AwaitDrop => ConnectionPhase::Cooldown,
        ConnectionPhase::Cooldown => ConnectionPhase::CheckStarted,
        ConnectionPhase::CheckStarted => if outcome {
            ConnectionPhase::CheckActive
        } else {
            ConnectionPhase::Configure
        },
        ConnectionPhase::Configure => if outcome {
            ConnectionPhase::Start
        } else {
            ConnectionPhase::Halted
        },
        ConnectionPhase::Start => if !outcome {
            ConnectionPhase::Halted
        } else {
            match role {
                Role::AccessPoint => ConnectionPhase::CheckActive,
                Role::Station => ConnectionPhase::Connect,
            }
        },
        ConnectionPhase::Connect => if outcome {
            ConnectionPhase::CheckActive
        } else {
            ConnectionPhase::RetryCooldown
        },
        ConnectionPhase::RetryCooldown => ConnectionPhase::CheckActive,
        ConnectionPhase::Halted => ConnectionPhase::Halted,
    }
}

/// The phase reached from `phase` after the outcomes `outcomes`, in order.
pub open spec fn connection_run(role: Role, phase: ConnectionPhase, outcomes: Seq<bool>) -> ConnectionPhase
    decreases outcomes.len(),
{
    if outcomes.len() == 0 {
        phase
    } else {
        connection_next(role, connection_run(role, phase, outcomes.drop_last()), outcomes.last())
    }
}

/// What the task does in a phase.
pub fn connection_command(phase: ConnectionPhase) -> (c: ConnectionCommand)
    ensures
        c == command_of(phase),
{
    match phase {
        ConnectionPhase::CheckActive => ConnectionCommand::ProbeActive,
        ConnectionPhase::AwaitDrop => ConnectionCommand::WaitForDrop,
        ConnectionPhase::Cooldown => ConnectionCommand::Sleep(5000),
        ConnectionPhase::CheckStarted => ConnectionCommand::ProbeStarted,
        ConnectionPhase::Configure => ConnectionCommand::ApplyConfig,
        ConnectionPhase::Start => ConnectionCommand::StartRadio,
        ConnectionPhase::Connect => ConnectionCommand::ConnectToNetwork,
        ConnectionPhase::RetryCooldown => ConnectionCommand::Sleep(5000),
        ConnectionPhase::Halted => ConnectionCommand::Halt,
    }
}

/// The phase after a phase's command, given its outcome.
pub fn connection_step(role: Role, phase: ConnectionPhase, outcome: bool) -> (next: ConnectionPhase)
    ensures
        next == connection_next(role, phase, outcome),
{
    match phase {
        ConnectionPhase::CheckActive => if outcome {
            ConnectionPhase::AwaitDrop
        } else {
            ConnectionPhase::CheckStarted
        },
        ConnectionPhase::AwaitDrop => ConnectionPhase::Cooldown,
        ConnectionPhase::Cooldown => ConnectionPhase::CheckStarted,
        ConnectionPhase::CheckStarted => if outcome {
            ConnectionPhase::CheckActive
        } else {
            ConnectionPhase::Configure
        },
        ConnectionPhase::Configure => if outcome {
            ConnectionPhase::Start
        } else {
            ConnectionPhase::Halted
        },
        ConnectionPhase::Start => if !outcome {
            ConnectionPhase::Halted
        } else {
            match role {
                Role::AccessPoint => ConnectionPhase::CheckActive,
                Role::Station => ConnectionPhase::Connect,
            }
        },
        ConnectionPhase::Connect => if outcome {
            ConnectionPhase::CheckActive
        } else {
            ConnectionPhase::RetryCooldown
        },
        ConnectionPhase::RetryCooldown => ConnectionPhase::CheckActive,
        ConnectionPhase::Halted => ConnectionPhase::Halted,
    }
}

/// The radio is configured only right after it reported that it is not
/// started, and the task halts only when configuring or starting it failed;
/// once halted it stays halted.
pub proof fn lemma_configure_only_when_stopped(role: Role, phase: ConnectionPhase, outcome: bool)
    ensures
        connection_next(role, phase, outcome) == ConnectionPhase::Configure ==> phase
            == ConnectionPhase::CheckStarted && !outcome,
        connection_next(role, phase, outcome) == ConnectionPhase::Halted ==> phase
            == ConnectionPhase::Halted || ((phase == ConnectionPhase::Configure || phase
            == ConnectionPhase::Start) && !outcome),
        phase == ConnectionPhase::Halted ==> connection_next(role, phase, outcome)
            == ConnectionPhase::Halted,
{
}

/// Only a station connects, and only right after it started the radio.
pub proof fn lemma_connect_only_after_start(role: Role, phase: ConnectionPhase, outcome: bool)
    ensures
        connection_next(role, phase, outcome) == ConnectionPhase::Connect ==> role == Role::Station
            && phase == ConnectionPhase::Start && outcome,
{
}

/// When the interface goes down, and when connecting fails, the task pauses
/// for five seconds before it checks again.
pub proof fn lemma_pause_after_drop(role: Role, outcome: bool)
    ensures
        connection_next(role, ConnectionPhase::AwaitDrop, outcome) == ConnectionPhase::Cooldown,
        command_of(ConnectionPhase::Cooldown) == ConnectionCommand::Sleep(5000),
        connection_next(role, ConnectionPhase::Connect, false) == ConnectionPhase::RetryCooldown,
        command_of(ConnectionPhase::RetryCooldown) == ConnectionCommand::Sleep(5000),
{
}

/// When the interface is reported up, in either role, the task next waits
/// for it to go down, and after that pauses for five seconds before its next
/// question to the radio.
pub proof fn lemma_up_interface_is_watched(
    role: Role,
    phase: ConnectionPhase,
    o1: bool,
    o2: bool,
)
    requires
        command_of(phase) == ConnectionCommand::ProbeActive,
    ensures
        command_of(connection_next(role, phase, true)) == ConnectionCommand::WaitForDrop,
        command_of(connection_next(role, connection_next(role, phase, true), o1))
            == ConnectionCommand::Sleep(5000),
        command_of(
            connection_next(role, connection_next(role, connection_next(role, phase, true), o1), o2),
        ) == ConnectionCommand::ProbeStarted,
        command_of(connection_next(role, phase, false)) == ConnectionCommand::ProbeStarted,
{
}

/// The access point never tries to connect to a network: from its first
/// check, whatever the outcomes, it never reaches the phases of connecting.
pub proof fn lemma_access_point_never_connects(outcomes: Seq<bool>)
    ensures
        connection_run(Role::AccessPoint, ConnectionPhase::CheckActive, outcomes)
            != ConnectionPhase::Connect,
        connection_run(Role::AccessPoint, ConnectionPhase::CheckActive, outcomes)
            != ConnectionPhase::RetryCooldown,
    decreases outcomes.len(),
{
    if outcomes.len() > 0 {
        lemma_access_point_never_connects(outcomes.drop_last());
    }
}

} // verus!
