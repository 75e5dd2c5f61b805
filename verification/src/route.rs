//! The static routes of the settings: the commands that install them, the
//! latch that lets them be installed once, and the run over the commands.

use vstd::prelude::*;
use crate::setting::{texts, Rule, RuleView};
use crate::text::{dotted_quad, format_address};

verus! {

/// The operating systems whose route command a gateway can write.
#[derive(Clone, Copy, Debug, PartialEq, Eq, Structural)]
pub enum Platform {
    Linux,
    MacOs,
}

/// One call of the route command of the operating system, as a mathematical
/// value.
pub struct RouteCommandView {
    pub program: Seq<char>,
    pub args: Seq<Seq<char>>,
}

/// One call of the route command of the operating system.
#[derive(Debug)]
pub struct RouteCommand {
    pub program: String,
    pub args: Vec<String>,
}

impl View for RouteCommand {
    type V = RouteCommandView;

    open spec fn view(&self) -> RouteCommandView {
        RouteCommandView { program: self.program@, args: texts(self.args@) }
    }
}

/// The views of `commands`, in the same order.
pub open spec fn command_views(commands: Seq<RouteCommand>) -> Seq<RouteCommandView> {
    commands.map_values(|c: RouteCommand| c@)
}

/// The views of `rules`, in the same order.
pub open spec fn rule_views(rules: Seq<Rule>) -> Seq<RuleView> {
    rules.map_values(|r: Rule| r@)
}

/// The command that directs `destination` through `gateway`.
pub open spec fn route_command(
    platform: Platform,
    destination: Seq<char>,
    gateway: Seq<char>,
) -> RouteCommandView {
    match platform {
        Platform::Linux => RouteCommandView {
            program: "ip"@,
            args: seq!["route"@, "add"@, destination, "via"@, gateway],
        },
        Platform::MacOs => RouteCommandView {
            program: "route"@,
            args: seq!["-n"@, "add"@, "-net"@, destination, gateway],
        },
    }
}

/// The values of the route rules among `rules`: rule after rule, and within
/// a rule value after value.
pub open spec fn route_values(rules: Seq<RuleView>) -> Seq<Seq<char>>
    decreases rules.len(),
{
    if rules.len() == 0 {
        Seq::empty()
    } else if rules.last().rule_type is Route {
        route_values(rules.drop_last()) + rules.last().values
    } else {
        route_values(rules.drop_last())
    }
}

/// One command for each of `destinations`, in the same order.
pub open spec fn commands_for(
    platform: Platform,
    destinations: Seq<Seq<char>>,
    gateway: Seq<char>,
) -> Seq<RouteCommandView> {
    destinations.map_values(|d: Seq<char>| route_command(platform, d, gateway))
}

/// The command that directs `destination` through `gateway`.
fn make_command(platform: Platform, destination: &String, gateway: &String) -> (command:
    RouteCommand)
    ensures
        command@ == route_command(platform, destination@, gateway@),
{
    let mut args: Vec<String> = Vec::new();
    match platform {
        Platform::Linux => {
            args.push("route".to_owned());
            args.push("add".to_owned());
            args.push(destination.clone());
            args.push("via".to_owned());
            args.push(gateway.clone());
            proof {
                assert(texts(args@) =~= seq!["route"@, "add"@, destination@, "via"@, gateway@]);
            }
            RouteCommand { program: "ip".to_owned(), args }
        },
        Platform::MacOs => {
            args.push("-n".to_owned());
            args.push("add".to_owned());
            args.push("-net".to_owned());
            args.push(destination.clone());
            args.push(gateway.clone());
            proof {
                assert(texts(args@) =~= seq!["-n"@, "add"@, "-net"@, destination@, gateway@]);
            }
            RouteCommand { program: "route".to_owned(), args }
        },
    }
}

/// The commands that install the static routes among `rules`: one for
/// every value of every route rule, each through the address `gateway`.
pub fn route_commands(rules: &Vec<Rule>, gateway: [u8; 4], platform: Platform) -> (commands: Vec<
    RouteCommand,
>)
    ensures
        command_views(commands@) == commands_for(
            platform,
            route_values(rule_views(rules@)),
            dotted_quad(gateway@),
        ),
{
    let through: String = format_address(gateway);
    let mut commands: Vec<RouteCommand> = Vec::new();
    let n: usize = rules.len();
    let ghost all = rule_views(rules@);
    let mut i: usize = 0;
    while i < n
        invariant
            n == rules@.len(),
            all == rule_views(rules@),
            i <= n,
            through@ == dotted_quad(gateway@),
            command_views(commands@) == commands_for(
                platform,
                route_values(all.take(i as int)),
                through@,
            ),
        decreases n - i,
    {
        let rule: &Rule = &rules[i];
        proof {
            assert(all.take(i + 1).drop_last() =~= all.take(i as int));
            assert(all.take(i + 1).last() == rule@);
        }
        if rule.rule_type.is_route() {
            let m: usize = rule.values.len();
            let ghost before = route_values(all.take(i as int));
            let mut j: usize = 0;
            while j < m
                invariant
                    m == rule.values@.len(),
                    j <= m,
                    command_views(commands@) == commands_for(
                        platform,
                        before + texts(rule.values@).take(j as int),
                        through@,
                    ),
                decreases m - j,
            {
                let command: RouteCommand = make_command(platform, &rule.values[j], &through);
                let ghost made = commands@;
                let ghost done = before + texts(rule.values@).take(j as int);
                let ghost value = rule.values@[j as int]@;
                let ghost added = command@;
                commands.push(command);
                proof {
                    assert(before + texts(rule.values@).take(j + 1) =~= done.push(value));
                    assert(command_views(commands@) =~= command_views(made).push(added));
                    assert(commands_for(platform, done.push(value), through@) =~= commands_for(
                        platform,
                        done,
                        through@,
                    ).push(added));
                }
                j = j + 1;
            }
            proof {
                assert(texts(rule.values@).take(m as int) =~= texts(rule.values@));
            }
        }
        i = i + 1;
    }
    proof {
        assert(all.take(n as int) =~= all);
    }
    commands
}

/// The latch that lets the static routes be installed once for the whole
/// process, however many gateways there are. The process keeps one latch
/// and hands it to each gateway in turn.
#[derive(Debug)]
pub struct RouteLatch {
    set: bool,
}

/// What a gateway gets to install: every command where the latch was not
/// yet set, and nothing where it was.
pub open spec fn first_only(set: bool, commands: Seq<RouteCommandView>) -> Seq<RouteCommandView> {
    if set {
        Seq::empty()
    } else {
        commands
    }
}

impl RouteLatch {
    /// Whether a gateway has taken the routes upon itself.
    pub closed spec fn spec_is_set(&self) -> bool {
        self.set
    }

    /// A latch that is not set.
    pub fn new() -> (latch: Self)
        ensures
            !latch.spec_is_set(),
    {
        RouteLatch { set: false }
    }

    /// Whether a gateway has taken the routes upon itself.
    #[verifier::when_used_as_spec(spec_is_set)]
    pub fn is_set(&self) -> (set: bool)
        ensures
            set == self.spec_is_set(),
    {
        self.set
    }

    /// Sets the latch and says whether the caller is the first to do so.
    pub fn set(&mut self) -> (first: bool)
        ensures
            first == !old(self).spec_is_set(),
            final(self).spec_is_set(),
    {
        let first: bool = !self.set;
        self.set = true;
        first
    }
}

/// The routes are installed once: the gateway that finds the latch unset
/// gets every command, and whoever finds it set gets none, whatever the
/// commands are.
pub proof fn lemma_routes_installed_once(commands: Seq<RouteCommandView>)
    ensures
        first_only(false, commands) == commands,
        first_only(true, commands).len() == 0,
{
}

/// How far a run over `total` commands has come after the outcomes
/// `outcomes`, one for each command tried: an outcome moves the run on by
/// one command, whether the command succeeded or not, until none is left.
pub open spec fn progress(total: nat, outcomes: Seq<bool>) -> nat
    decreases outcomes.len(),
{
    if outcomes.len() == 0 {
        0
    } else if progress(total, outcomes.drop_last()) < total {
        progress(total, outcomes.drop_last()) + 1
    } else {
        total
    }
}

/// The number of failures among `outcomes`.
pub open spec fn failures(outcomes: Seq<bool>) -> nat
    decreases outcomes.len(),
{
    if outcomes.len() == 0 {
        0
    } else if outcomes.last() {
        failures(outcomes.drop_last())
    } else {
        failures(outcomes.drop_last()) + 1
    }
}

/// What a run has seen so far.
struct Tally {
    outcomes: Ghost<Seq<bool>>,
    next: usize,
    failed: usize,
}

/// One run over the route commands. The caller tries the current command
/// and records how it went; the run moves on either way.
pub struct RouteRun {
    commands: Vec<RouteCommand>,
    tally: Tally,
}

impl RouteRun {
    #[verifier::type_invariant]
    spec fn consistent(self) -> bool {
        &&& self.tally.next == progress(self.commands@.len(), self.tally.outcomes@)
        &&& self.tally.next == self.tally.outcomes@.len()
        &&& self.tally.next <= self.commands@.len()
        &&& self.tally.failed == failures(self.tally.outcomes@)
        &&& self.tally.failed <= self.tally.next
    }

    /// The commands of the run.
    pub closed spec fn spec_commands(&self) -> Seq<RouteCommand> {
        self.commands@
    }

    /// The outcomes recorded so far, one for each command tried.
    pub closed spec fn spec_outcomes(&self) -> Seq<bool> {
        self.tally.outcomes@
    }

    /// A run over `commands` in which nothing has been tried yet.
    pub fn new(commands: Vec<RouteCommand>) -> (run: Self)
        ensures
            run.spec_commands() == commands@,
            run.spec_outcomes() == Seq::<bool>::empty(),
    {
        RouteRun { commands, tally: Tally { outcomes: Ghost(Seq::empty()), next: 0, failed: 0 } }
    }

    /// The command to try now: the one behind those tried so far, or none
    /// where all have been tried.
    pub fn current(&self) -> (command: Option<&RouteCommand>)
        ensures
            self.spec_outcomes().len() <= self.spec_commands().len(),
            command is Some <==> self.spec_outcomes().len() < self.spec_commands().len(),
            command matches Some(c) ==> *c == self.spec_commands()[
                self.spec_outcomes().len() as int
            ],
    {
        proof {
            use_type_invariant(self);
        }
        if self.tally.next < self.commands.len() {
            Some(&self.commands[self.tally.next])
        } else {
            None
        }
    }

    /// Records how the current command went and moves on to the next one.
    /// Where no command is left, nothing changes.
    pub fn record(&mut self, succeeded: bool)
        ensures
            final(self).spec_commands() == old(self).spec_commands(),
            final(self).spec_outcomes() == if old(self).spec_outcomes().len() < old(
                self,
            ).spec_commands().len() {
                old(self).spec_outcomes().push(succeeded)
            } else {
                old(self).spec_outcomes()
            },
    {
        proof {
            use_type_invariant(&*self);
        }
        if self.tally.next < self.commands.len() {
            let ghost before = self.tally.outcomes@;
            let next: usize = self.tally.next + 1;
            let failed: usize = if succeeded {
                self.tally.failed
            } else {
                self.tally.failed + 1
            };
            proof {
                assert(before.push(succeeded).drop_last() =~= before);
            }
            self.tally = Tally { outcomes: Ghost(before.push(succeeded)), next, failed };
        }
    }

    /// How many commands have been tried.
    pub fn tried(&self) -> (count: usize)
        ensures
            count == self.spec_outcomes().len(),
            count == progress(self.spec_commands().len(), self.spec_outcomes()),
    {
        proof {
            use_type_invariant(self);
        }
        self.tally.next
    }

    /// How many of the commands tried have failed.
    pub fn failed(&self) -> (count: usize)
        ensures
            count == failures(self.spec_outcomes()),
    {
        proof {
            use_type_invariant(self);
        }
        self.tally.failed
    }

    /// Whether every command has been tried.
    pub fn is_done(&self) -> (done: bool)
        ensures
            done == (self.spec_outcomes().len() == self.spec_commands().len()),
    {
        proof {
            use_type_invariant(self);
        }
        self.tally.next >= self.commands.len()
    }
}

/// No failure holds a run up: after any outcomes, as many commands have
/// been tried as outcomes were recorded, up to the number of commands. A
/// run that has one outcome for each command has tried them all.
pub proof fn lemma_failures_do_not_stop_the_run(total: nat, outcomes: Seq<bool>)
    ensures
        progress(total, outcomes) == if outcomes.len() < total {
            outcomes.len()
        } else {
            total
        },
        failures(outcomes) <= outcomes.len(),
    decreases outcomes.len(),
{
    if outcomes.len() > 0 {
        lemma_failures_do_not_stop_the_run(total, outcomes.drop_last());
    }
}

} // verus!
