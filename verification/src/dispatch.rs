//! The dispatch state machine, as a mathematical step function: one input
//! line's tokens plus the context stack decide the next stack and the
//! outcome — an action routed to an external collaborator, a stack change
//! already carried out, or a diagnostic.
//!
//! The outermost context on the stack selects the command table; dispatch
//! may look one level further down to find a more specific table. The
//! `global` prefix re-roots one line at the base table without touching
//! the stack; `exit` pops, and signals termination when nothing is left to
//! pop. Validation happens before mutation: every outcome other than a
//! successful push or pop leaves the stack exactly as it was.

use crate::classify::{classify_spec, TokenClass};
use crate::context::ContextView;
use crate::text::{lower_seq, upper_seq};
use vstd::prelude::*;

verus! {

/// How a line ends when no action is routed. Only `Terminate` ends the
/// session; the other kinds are recoverable diagnostics and the session
/// re-prompts.
#[derive(Clone, Copy, Debug, PartialEq, Eq, Structural)]
pub enum EvalError {
    /// A required token was absent.
    MissingArgument,
    /// A token failed classification or context-specific validation.
    InvalidInput,
    /// The verb is not in the active context's command table.
    UnknownCommand,
    /// The explicit end-of-session signal (`exit` with no enclosing
    /// context); not a fault.
    Terminate,
}

/// A subcommand of the match service.
#[derive(Clone, Copy, Debug, PartialEq, Eq, Structural)]
pub enum MatchVerb {
    Load,
    Next,
    Prev,
    Lookup,
}

/// What one successfully dispatched line asks of the session: nothing
/// beyond the stack change already made (`Handled`), or one fully resolved
/// request to an external collaborator.
#[derive(Debug)]
pub enum Action {
    /// The line was consumed by the dispatcher itself (a push, a pop, or
    /// an empty line).
    Handled,
    /// The whole line, forwarded verbatim to the configuration
    /// collaborator.
    ConfigCommand { words: Vec<String> },
    /// Graph the statistics of one team.
    TeamStatsGraph { team: String },
    /// Per-competition statistics of one team.
    TeamStatsCompetition { team: String },
    /// The match history of one team.
    TeamHistory { team: String },
    /// Graph the statistics of one organization.
    OrgStatsGraph { organization: String },
    /// Per-competition statistics of one organization.
    OrgStatsCompetition { organization: String },
    /// The match history of one organization.
    OrgHistory { organization: String },
    /// List the teams of one organization.
    OrgList { organization: String },
    /// Graph one organization.
    OrgGraph { organization: String },
    /// Competition statistics of one organization.
    OrgCompetition { organization: String },
    /// Query the match service, scoped to a competition and optionally to
    /// one team within it.
    MatchQuery { sku: String, team: Option<String>, verb: MatchVerb },
    /// Wait for the competition's data to change.
    CompetitionWait { sku: String },
    /// Describe the match currently in scope.
    DescribeMatch { match_num: u16 },
    /// Describe the match list currently in scope.
    DescribeMatchList,
    /// Load statistics for one team.
    StatsForTeam { team: String },
    /// Load statistics for one organization.
    StatsForOrganization { organization: String },
}

/// The mathematical value of an `Action`.
#[verifier::ext_equal]
pub ghost enum ActionView {
    Handled,
    ConfigCommand { words: Seq<Seq<char>> },
    TeamStatsGraph { team: Seq<char> },
    TeamStatsCompetition { team: Seq<char> },
    TeamHistory { team: Seq<char> },
    OrgStatsGraph { organization: Seq<char> },
    OrgStatsCompetition { organization: Seq<char> },
    OrgHistory { organization: Seq<char> },
    OrgList { organization: Seq<char> },
    OrgGraph { organization: Seq<char> },
    OrgCompetition { organization: Seq<char> },
    MatchQuery { sku: Seq<char>, team: Option<Seq<char>>, verb: MatchVerb },
    CompetitionWait { sku: Seq<char> },
    DescribeMatch { match_num: u16 },
    DescribeMatchList,
    StatsForTeam { team: Seq<char> },
    StatsForOrganization { organization: Seq<char> },
}

impl View for Action {
    type V = ActionView;

    open spec fn view(&self) -> ActionView {
        match self {
            Action::Handled => ActionView::Handled,
            Action::ConfigCommand { words } => ActionView::ConfigCommand {
                words: words.deep_view(),
            },
            Action::TeamStatsGraph { team } => ActionView::TeamStatsGraph { team: team@ },
            Action::TeamStatsCompetition { team } => ActionView::TeamStatsCompetition {
                team: team@,
            },
            Action::TeamHistory { team } => ActionView::TeamHistory { team: team@ },
            Action::OrgStatsGraph { organization } => ActionView::OrgStatsGraph {
                organization: organization@,
            },
            Action::OrgStatsCompetition { organization } => ActionView::OrgStatsCompetition {
                organization: organization@,
            },
            Action::OrgHistory { organization } => ActionView::OrgHistory {
                organization: organization@,
            },
            Action::OrgList { organization } => ActionView::OrgList {
                organization: organization@,
            },
            Action::OrgGraph { organization } => ActionView::OrgGraph {
                organization: organization@,
            },
            Action::OrgCompetition { organization } => ActionView::OrgCompetition {
                organization: organization@,
            },
            Action::MatchQuery { sku, team, verb } => ActionView::MatchQuery {
                sku: sku@,
                team: match team {
                    Some(t) => Some(t@),
                    None => None,
                },
                verb: *verb,
            },
            Action::CompetitionWait { sku } => ActionView::CompetitionWait { sku: sku@ },
            Action::DescribeMatch { match_num } => ActionView::DescribeMatch {
                match_num: *match_num,
            },
            Action::DescribeMatchList => ActionView::DescribeMatchList,
            Action::StatsForTeam { team } => ActionView::StatsForTeam { team: team@ },
            Action::StatsForOrganization { organization } => ActionView::StatsForOrganization {
                organization: organization@,
            },
        }
    }
}

/// The value of a dispatched line's result.
pub open spec fn outcome_view(r: Result<Action, EvalError>) -> Result<ActionView, EvalError> {
    match r {
        Ok(a) => Ok(a@),
        Err(e) => Err(e),
    }
}

/// What one dispatch step yields: the stack after the line, and the
/// line's outcome.
#[verifier::ext_equal]
pub ghost struct DispatchResult {
    pub stack: Seq<ContextView>,
    pub outcome: Result<ActionView, EvalError>,
}

/// The contexts whose command tables exist. Dispatch is defined only for
/// stacks whose outermost context is one of these (or for the empty
/// stack); the dispatcher itself never builds another shape, and handing
/// it one is a programming error.
pub open spec fn dispatchable_root(c: ContextView) -> bool {
    match c {
        ContextView::Competition(_) => true,
        ContextView::Team(_) => true,
        ContextView::Organization(_) => true,
        ContextView::Stats => true,
        ContextView::Config => true,
        ContextView::Base => true,
        _ => false,
    }
}

/// The stacks the dispatcher accepts: empty, or rooted in a context that
/// has a command table.
pub open spec fn stack_dispatchable(stack: Seq<ContextView>) -> bool {
    stack.len() > 0 ==> dispatchable_root(stack[0])
}

/// The match-service subcommands.
pub open spec fn match_verb_of(v: Seq<char>) -> Option<MatchVerb> {
    if v == "load"@ {
        Some(MatchVerb::Load)
    } else if v == "next"@ {
        Some(MatchVerb::Next)
    } else if v == "prev"@ {
        Some(MatchVerb::Prev)
    } else if v == "lookup"@ {
        Some(MatchVerb::Lookup)
    } else {
        None
    }
}

/// The base (root) command table. `verb` is the effective verb, already
/// lower-cased, standing at token index `vi`; its arguments follow it.
pub open spec fn dispatch_base(
    stack: Seq<ContextView>,
    verb: Seq<char>,
    tokens: Seq<Seq<char>>,
    vi: int,
) -> DispatchResult {
    if verb == "config"@ {
        DispatchResult { stack: stack.push(ContextView::Config), outcome: Ok(ActionView::Handled) }
    } else if verb == "competition"@ || verb == "comp"@ {
        if tokens.len() > vi + 1 {
            DispatchResult {
                stack: stack.push(ContextView::Competition(tokens[vi + 1])),
                outcome: Ok(ActionView::Handled),
            }
        } else {
            DispatchResult { stack, outcome: Err(EvalError::MissingArgument) }
        }
    } else if verb == "stats"@ || verb == "team"@ {
        if tokens.len() > vi + 1 {
            let ident = tokens[vi + 1];
            let trail: Seq<ContextView> = if verb == "stats"@ {
                seq![ContextView::Stats]
            } else {
                Seq::empty()
            };
            match classify_spec(ident) {
                TokenClass::Team => DispatchResult {
                    stack: stack + seq![ContextView::Team(upper_seq(ident))] + trail,
                    outcome: Ok(ActionView::Handled),
                },
                TokenClass::Organization => DispatchResult {
                    stack: stack + seq![ContextView::Organization(ident)] + trail,
                    outcome: Ok(ActionView::Handled),
                },
                TokenClass::Invalid => DispatchResult {
                    stack,
                    outcome: Err(EvalError::InvalidInput),
                },
            }
        } else if verb == "stats"@ {
            DispatchResult {
                stack: stack.push(ContextView::Stats),
                outcome: Ok(ActionView::Handled),
            }
        } else {
            DispatchResult { stack, outcome: Err(EvalError::MissingArgument) }
        }
    } else if verb == "exit"@ {
        DispatchResult { stack, outcome: Err(EvalError::Terminate) }
    } else {
        DispatchResult { stack, outcome: Err(EvalError::UnknownCommand) }
    }
}

/// The table of a `Team` context: nested `Stats` and `History` scopes
/// delegate, a bare team scope opens them.
pub open spec fn dispatch_team(
    stack: Seq<ContextView>,
    name: Seq<char>,
    verb: Seq<char>,
) -> DispatchResult {
    if stack.len() >= 2 {
        match stack[1] {
            ContextView::Stats => if verb == "graph"@ {
                DispatchResult { stack, outcome: Ok(ActionView::TeamStatsGraph { team: name }) }
            } else if verb == "competition"@ {
                DispatchResult {
                    stack,
                    outcome: Ok(ActionView::TeamStatsCompetition { team: name }),
                }
            } else {
                DispatchResult { stack, outcome: Err(EvalError::UnknownCommand) }
            },
            ContextView::History => DispatchResult {
                stack,
                outcome: Ok(ActionView::TeamHistory { team: name }),
            },
            _ => DispatchResult { stack, outcome: Err(EvalError::UnknownCommand) },
        }
    } else {
        if verb == "stats"@ {
            DispatchResult {
                stack: stack.push(ContextView::Stats),
                outcome: Ok(ActionView::Handled),
            }
        } else if verb == "history"@ {
            DispatchResult {
                stack: stack.push(ContextView::History),
                outcome: Ok(ActionView::Handled),
            }
        } else {
            DispatchResult { stack, outcome: Err(EvalError::UnknownCommand) }
        }
    }
}

/// The table of an `Organization` context, symmetric with the team table,
/// plus the organization-only verbs.
pub open spec fn dispatch_organization(
    stack: Seq<ContextView>,
    name: Seq<char>,
    verb: Seq<char>,
) -> DispatchResult {
    if stack.len() >= 2 {
        match stack[1] {
            ContextView::Stats => if verb == "graph"@ {
                DispatchResult {
                    stack,
                    outcome: Ok(ActionView::OrgStatsGraph { organization: name }),
                }
            } else if verb == "competition"@ {
                DispatchResult {
                    stack,
                    outcome: Ok(ActionView::OrgStatsCompetition { organization: name }),
                }
            } else {
                DispatchResult { stack, outcome: Err(EvalError::UnknownCommand) }
            },
            ContextView::History => DispatchResult {
                stack,
                outcome: Ok(ActionView::OrgHistory { organization: name }),
            },
            _ => DispatchResult { stack, outcome: Err(EvalError::UnknownCommand) },
        }
    } else {
        if verb == "list"@ {
            DispatchResult { stack, outcome: Ok(ActionView::OrgList { organization: name }) }
        } else if verb == "graph"@ {
            DispatchResult { stack, outcome: Ok(ActionView::OrgGraph { organization: name }) }
        } else if verb == "competition"@ {
            DispatchResult { stack, outcome: Ok(ActionView::OrgCompetition { organization: name }) }
        } else {
            DispatchResult { stack, outcome: Err(EvalError::UnknownCommand) }
        }
    }
}

/// The table of a `Competition` context: a nested `Team` scope queries the
/// match service for that team, a nested match scope describes it, and the
/// bare competition scope opens a team, queries matches or waits.
pub open spec fn dispatch_competition(
    stack: Seq<ContextView>,
    sku: Seq<char>,
    verb: Seq<char>,
    tokens: Seq<Seq<char>>,
) -> DispatchResult {
    if stack.len() >= 2 {
        match stack[1] {
            ContextView::Team(team_name) => match match_verb_of(verb) {
                Some(v) => DispatchResult {
                    stack,
                    outcome: Ok(
                        ActionView::MatchQuery { sku, team: Some(team_name), verb: v },
                    ),
                },
                None => DispatchResult { stack, outcome: Err(EvalError::UnknownCommand) },
            },
            ContextView::Match(m) => DispatchResult {
                stack,
                outcome: Ok(ActionView::DescribeMatch { match_num: m.match_num }),
            },
            ContextView::MatchList(_) => DispatchResult {
                stack,
                outcome: Ok(ActionView::DescribeMatchList),
            },
            _ => DispatchResult { stack, outcome: Err(EvalError::UnknownCommand) },
        }
    } else {
        if verb == "team"@ {
            if tokens.len() >= 2 {
                if classify_spec(tokens[1]) == TokenClass::Team {
                    DispatchResult {
                        stack: stack.push(ContextView::Team(upper_seq(tokens[1]))),
                        outcome: Ok(ActionView::Handled),
                    }
                } else {
                    DispatchResult { stack, outcome: Err(EvalError::InvalidInput) }
                }
            } else {
                DispatchResult { stack, outcome: Err(EvalError::MissingArgument) }
            }
        } else if verb == "match"@ {
            if tokens.len() >= 2 {
                match match_verb_of(lower_seq(tokens[1])) {
                    Some(v) => DispatchResult {
                        stack,
                        outcome: Ok(ActionView::MatchQuery { sku, team: None, verb: v }),
                    },
                    None => DispatchResult { stack, outcome: Err(EvalError::UnknownCommand) },
                }
            } else {
                DispatchResult { stack, outcome: Err(EvalError::MissingArgument) }
            }
        } else if verb == "wait"@ {
            DispatchResult { stack, outcome: Ok(ActionView::CompetitionWait { sku }) }
        } else {
            DispatchResult { stack, outcome: Err(EvalError::UnknownCommand) }
        }
    }
}

/// The standalone `Stats` table: the verb itself is the identifier to
/// classify and delegate.
pub open spec fn dispatch_stats(stack: Seq<ContextView>, tokens: Seq<Seq<char>>) -> DispatchResult {
    match classify_spec(tokens[0]) {
        TokenClass::Team => DispatchResult {
            stack,
            outcome: Ok(ActionView::StatsForTeam { team: upper_seq(tokens[0]) }),
        },
        TokenClass::Organization => DispatchResult {
            stack,
            outcome: Ok(ActionView::StatsForOrganization { organization: tokens[0] }),
        },
        TokenClass::Invalid => DispatchResult { stack, outcome: Err(EvalError::InvalidInput) },
    }
}

/// Dispatch of a non-empty line that is neither `global` nor `exit`,
/// through the table of the outermost context.
pub open spec fn dispatch_in_context(
    stack: Seq<ContextView>,
    verb: Seq<char>,
    tokens: Seq<Seq<char>>,
) -> DispatchResult {
    if stack.len() == 0 {
        dispatch_base(stack, verb, tokens, 0)
    } else {
        match stack[0] {
            ContextView::Base => dispatch_base(stack, verb, tokens, 0),
            ContextView::Config => DispatchResult {
                stack,
                outcome: Ok(ActionView::ConfigCommand { words: tokens }),
            },
            ContextView::Team(name) => dispatch_team(stack, name, verb),
            ContextView::Organization(name) => dispatch_organization(stack, name, verb),
            ContextView::Competition(sku) => dispatch_competition(stack, sku, verb, tokens),
            ContextView::Stats => dispatch_stats(stack, tokens),
            _ => DispatchResult { stack, outcome: Err(EvalError::UnknownCommand) },
        }
    }
}

/// One step of the shell: the tokens of one line against the context
/// stack. The empty line is consumed silently — except in a standalone
/// statistics scope, whose table awaits an identifier, where it is a
/// missing argument. `global` re-roots the line at the base table, taking
/// the next token as the effective verb and leaving the stack as it
/// stands. `exit` pops, or signals termination when the stack is already
/// empty. Everything else goes through the outermost context's command
/// table.
pub open spec fn dispatch(stack: Seq<ContextView>, tokens: Seq<Seq<char>>) -> DispatchResult {
    if tokens.len() == 0 {
        if stack.len() > 0 && stack[0] == ContextView::Stats {
            DispatchResult { stack, outcome: Err(EvalError::MissingArgument) }
        } else {
            DispatchResult { stack, outcome: Ok(ActionView::Handled) }
        }
    } else {
        let verb = lower_seq(tokens[0]);
        if verb == "global"@ {
            if tokens.len() < 2 {
                DispatchResult { stack, outcome: Err(EvalError::MissingArgument) }
            } else {
                dispatch_base(stack, lower_seq(tokens[1]), tokens, 1)
            }
        } else if verb == "exit"@ {
            if stack.len() > 0 {
                DispatchResult { stack: stack.drop_last(), outcome: Ok(ActionView::Handled) }
            } else {
                DispatchResult { stack, outcome: Err(EvalError::Terminate) }
            }
        } else {
            dispatch_in_context(stack, verb, tokens)
        }
    }
}

/// One dispatch step keeps the stack dispatchable: whatever the line, the
/// stack it leaves behind is again empty or rooted in a context that has a
/// command table.
pub proof fn lemma_dispatch_preserves_dispatchable(
    stack: Seq<ContextView>,
    tokens: Seq<Seq<char>>,
)
    requires
        stack_dispatchable(stack),
    ensures
        stack_dispatchable(dispatch(stack, tokens).stack),
{
}

/// Every recoverable outcome (and the termination signal) leaves the
/// context stack exactly as it was: validation happens before mutation,
/// and a failed line never half-pushes.
pub proof fn lemma_error_preserves_stack(stack: Seq<ContextView>, tokens: Seq<Seq<char>>)
    requires
        stack_dispatchable(stack),
    ensures
        dispatch(stack, tokens).outcome is Err ==> dispatch(stack, tokens).stack == stack,
{
}

/// `exit` pops: at depth zero it yields the termination signal and touches
/// nothing; at depth `n > 0` it succeeds and leaves depth `n - 1`,
/// whatever the popped context was. Tokens after the verb are ignored.
pub proof fn lemma_exit_outcome(stack: Seq<ContextView>, tokens: Seq<Seq<char>>)
    requires
        stack_dispatchable(stack),
        tokens.len() >= 1,
        lower_seq(tokens[0]) == "exit"@,
    ensures
        stack.len() == 0 ==> dispatch(stack, tokens) == (DispatchResult {
            stack,
            outcome: Err(EvalError::Terminate),
        }),
        stack.len() > 0 ==> dispatch(stack, tokens) == (DispatchResult {
            stack: stack.drop_last(),
            outcome: Ok(ActionView::Handled),
        }),
{
    proof_exit_is_not_global();
}

/// A `global` line is dispatched through the base table against the same,
/// undiscarded stack: the stack is not cleared, only the command table for
/// this one line changes, so the next line resumes the previous nesting.
pub proof fn lemma_global_preserves_history(stack: Seq<ContextView>, tokens: Seq<Seq<char>>)
    requires
        stack_dispatchable(stack),
        tokens.len() >= 2,
        lower_seq(tokens[0]) == "global"@,
    ensures
        dispatch(stack, tokens) == dispatch_base(stack, lower_seq(tokens[1]), tokens, 1),
{
}

/// The two reserved line prefixes differ, so an `exit` line is never taken
/// for a `global` one.
proof fn proof_exit_is_not_global()
    ensures
        "exit"@ != "global"@,
{
    reveal_strlit("exit");
    reveal_strlit("global");
    assert("exit"@.len() == 4);
    assert("global"@.len() == 6);
}

} // verus!
