//! The shell session: a configuration, a context stack, the prompt for the
//! stack, and `eval`, which carries one input line through the dispatch
//! state machine.

use crate::classify::{classify, TokenClass};
use crate::config::{ConfigView, ReplConfiguration};
use crate::context::{
    render_prompt, render_segment, render_segments, segment, ContextView, ProgramContext,
};
use crate::dispatch::{
    dispatch, dispatch_base, dispatch_competition, dispatch_organization, dispatch_stats,
    dispatch_team, match_verb_of, outcome_view, stack_dispatchable, Action, EvalError, MatchVerb,
};
use crate::text::{str_eq, to_lowercase, to_uppercase};
use crate::tokenize::{split_tokens, tokenize};
use vstd::prelude::*;

verus! {

/// One interactive session: the configuration read at startup and the
/// stack of nested command contexts, owned exclusively by this session.
pub struct ReplInterface {
    config: ReplConfiguration,
    contexts: Vec<ProgramContext>,
}

impl ReplInterface {
    /// The context stack as a mathematical sequence, outermost first.
    pub closed spec fn stack(&self) -> Seq<ContextView> {
        self.contexts.deep_view()
    }

    /// The session's configuration value.
    pub closed spec fn configuration(&self) -> ConfigView {
        self.config@
    }

    /// A session over the given configuration, with no open context.
    pub fn new(configuration: ReplConfiguration) -> (r: ReplInterface)
        ensures
            r.configuration() == configuration@,
            r.stack() == Seq::<ContextView>::empty(),
    {
        let r = ReplInterface { config: configuration, contexts: Vec::new() };
        proof {
            assert(r.contexts.deep_view() =~= Seq::<ContextView>::empty());
        }
        r
    }

    /// The configuration, read-only for the session's lifetime.
    pub fn get_configuration(&self) -> (r: &ReplConfiguration)
        ensures
            r@ == self.configuration(),
    {
        &self.config
    }

    /// The open contexts, outermost first.
    pub fn get_contexts(&self) -> (r: &Vec<ProgramContext>)
        ensures
            r.deep_view() == self.stack(),
    {
        &self.contexts
    }

    /// Push one context onto the stack.
    pub fn add_context(&mut self, context: ProgramContext)
        ensures
            final(self).stack() == old(self).stack().push(context@),
            final(self).configuration() == old(self).configuration(),
    {
        let ghost c = context@;
        self.contexts.push(context);
        proof {
            assert(self.contexts.deep_view() =~= old(self).contexts.deep_view().push(c));
        }
    }

    /// Pop the innermost context; nothing signals "no enclosing context".
    pub fn pop_context(&mut self) -> (r: Option<ProgramContext>)
        ensures
            final(self).configuration() == old(self).configuration(),
            old(self).stack().len() == 0 ==> r is None && final(self).stack() == old(
                self,
            ).stack(),
            old(self).stack().len() > 0 ==> final(self).stack() == old(self).stack().drop_last()
                && (r matches Some(c) && c@ == old(self).stack().last()),
    {
        let r = self.contexts.pop();
        proof {
            if old(self).contexts.len() > 0 {
                assert(self.contexts.deep_view() =~= old(self).contexts.deep_view().drop_last());
            } else {
                assert(self.contexts.deep_view() =~= old(self).contexts.deep_view());
            }
        }
        r
    }

    /// The innermost context, the next one `exit` would pop.
    pub fn top_context(&self) -> (r: Option<&ProgramContext>)
        ensures
            match r {
                Some(c) => self.stack().len() > 0 && c@ == self.stack().last(),
                None => self.stack().len() == 0,
            },
    {
        if self.contexts.len() == 0 {
            None
        } else {
            Some(&self.contexts[self.contexts.len() - 1])
        }
    }

    /// Drop every open context.
    pub fn clear_contexts(&mut self)
        ensures
            final(self).configuration() == old(self).configuration(),
            final(self).stack() == Seq::<ContextView>::empty(),
    {
        self.contexts.clear();
        proof {
            assert(self.contexts.deep_view() =~= Seq::<ContextView>::empty());
        }
    }

    /// The prompt for the current stack: the fixed root marker when no
    /// context is open, otherwise every context's segment, outermost
    /// first. The `Base` sentinel has no segment and must not be on the
    /// stack.
    pub fn prompt(&self) -> (r: String)
        requires
            forall|i: int|
                0 <= i < self.stack().len() ==> self.stack()[i] != ContextView::Base,
        ensures
            r@ == render_prompt(self.stack()),
    {
        let n = self.contexts.len();
        if n == 0 {
            return String::from_str("> ");
        }
        let ghost stack = self.stack();
        let mut out = String::new();
        let mut i: usize = 0;
        proof {
            assert(stack.skip(0) =~= stack);
        }
        while i < n
            invariant
                i <= n,
                n == self.contexts.len(),
                stack == self.stack(),
                forall|j: int| 0 <= j < stack.len() ==> stack[j] != ContextView::Base,
                out@ + render_segments(stack.skip(i as int)) =~= render_segments(stack),
            decreases n - i,
        {
            proof {
                assert(self.contexts[i as int]@ == stack[i as int]);
                assert(stack.skip(i as int).drop_first() =~= stack.skip(i + 1));
                assert(render_segments(stack.skip(i as int)) == segment(stack[i as int])
                    + render_segments(stack.skip(i + 1)));
            }
            let seg = render_segment(&self.contexts[i]);
            out.append(seg.as_str());
            i = i + 1;
        }
        proof {
            assert(stack.skip(n as int) =~= Seq::<ContextView>::empty());
            assert(out@ =~= render_segments(stack));
        }
        out
    }

    /// Evaluate one input line: split it into tokens and take one step of
    /// the dispatch state machine. The stack afterwards and the returned
    /// outcome are exactly what `dispatch` says for the old stack and the
    /// line's tokens; the configuration is never touched.
    pub fn eval(&mut self, input: String) -> (r: Result<Action, EvalError>)
        requires
            stack_dispatchable(old(self).stack()),
        ensures
            final(self).configuration() == old(self).configuration(),
            final(self).stack() == dispatch(old(self).stack(), tokenize(input@)).stack,
            outcome_view(r) == dispatch(old(self).stack(), tokenize(input@)).outcome,
            stack_dispatchable(final(self).stack()),
    {
        proof {
            crate::dispatch::lemma_dispatch_preserves_dispatchable(
                old(self).stack(),
                tokenize(input@),
            );
        }
        let tokens = split_tokens(input.as_str());
        if tokens.len() == 0 {
            if self.contexts.len() > 0 && matches!(
                &self.contexts[0],
                ProgramContext::StatsContext,
            ) {
                return Err(EvalError::MissingArgument);
            }
            return Ok(Action::Handled);
        }
        let verb = to_lowercase(tokens[0].as_str());
        if str_eq(verb.as_str(), "global") {
            if tokens.len() < 2 {
                return Err(EvalError::MissingArgument);
            }
            let real_verb = to_lowercase(tokens[1].as_str());
            return self.eval_base(&tokens, 1, &real_verb);
        }
        if str_eq(verb.as_str(), "exit") {
            if self.contexts.len() > 0 {
                let popped = self.contexts.pop();
                proof {
                    assert(self.contexts.deep_view() =~= old(
                        self,
                    ).contexts.deep_view().drop_last());
                }
                return Ok(Action::Handled);
            } else {
                return Err(EvalError::Terminate);
            }
        }
        if self.contexts.len() == 0 {
            return self.eval_base(&tokens, 0, &verb);
        }
        match &self.contexts[0] {
            ProgramContext::BaseContext => self.eval_base(&tokens, 0, &verb),
            ProgramContext::ConfigContext => Ok(Action::ConfigCommand { words: tokens }),
            ProgramContext::TeamContext(name) => {
                let name = name.clone();
                self.eval_team(name, &verb)
            },
            ProgramContext::OrganizationContext(name) => {
                let name = name.clone();
                self.eval_organization(name, &verb)
            },
            ProgramContext::CompetitionContext(sku) => {
                let sku = sku.clone();
                self.eval_competition(sku, &tokens, &verb)
            },
            ProgramContext::StatsContext => self.eval_stats(&tokens),
            _ => {
                proof {
                    assert(false);
                }
                Err(EvalError::UnknownCommand)
            },
        }
    }

    /// The base command table, for a line issued at the root or re-rooted
    /// by `global`. `verb` is the lower-cased effective verb, standing at
    /// token index `vi`.
    fn eval_base(&mut self, tokens: &Vec<String>, vi: usize, verb: &String) -> (r: Result<
        Action,
        EvalError,
    >)
        requires
            vi < tokens.len(),
        ensures
            final(self).configuration() == old(self).configuration(),
            final(self).stack() == dispatch_base(
                old(self).stack(),
                verb@,
                tokens.deep_view(),
                vi as int,
            ).stack,
            outcome_view(r) == dispatch_base(
                old(self).stack(),
                verb@,
                tokens.deep_view(),
                vi as int,
            ).outcome,
    {
        if str_eq(verb.as_str(), "config") {
            self.contexts.push(ProgramContext::ConfigContext);
            proof {
                assert(self.contexts.deep_view() =~= old(self).contexts.deep_view().push(
                    ContextView::Config,
                ));
            }
            Ok(Action::Handled)
        } else if str_eq(verb.as_str(), "competition") || str_eq(verb.as_str(), "comp") {
            if tokens.len() > vi + 1 {
                let sku = tokens[vi + 1].clone();
                let ghost skuv = sku@;
                self.contexts.push(ProgramContext::CompetitionContext(sku));
                proof {
                    assert(self.contexts.deep_view() =~= old(self).contexts.deep_view().push(
                        ContextView::Competition(skuv),
                    ));
                }
                Ok(Action::Handled)
            } else {
                Err(EvalError::MissingArgument)
            }
        } else if str_eq(verb.as_str(), "stats") || str_eq(verb.as_str(), "team") {
            let is_stats = str_eq(verb.as_str(), "stats");
            if tokens.len() > vi + 1 {
                match classify(tokens[vi + 1].as_str()) {
                    TokenClass::Team => {
                        let team_name = to_uppercase(tokens[vi + 1].as_str());
                        let ghost tv = team_name@;
                        self.contexts.push(ProgramContext::TeamContext(team_name));
                        proof {
                            assert(self.contexts.deep_view() =~= old(
                                self,
                            ).contexts.deep_view().push(ContextView::Team(tv)));
                        }
                        if is_stats {
                            let ghost mid = self.contexts.deep_view();
                            self.contexts.push(ProgramContext::StatsContext);
                            proof {
                                assert(self.contexts.deep_view() =~= mid.push(ContextView::Stats));
                                assert(self.contexts.deep_view() =~= old(
                                    self,
                                ).contexts.deep_view() + seq![ContextView::Team(tv)] + seq![
                                    ContextView::Stats,
                                ]);
                            }
                        } else {
                            proof {
                                assert(self.contexts.deep_view() =~= old(
                                    self,
                                ).contexts.deep_view() + seq![ContextView::Team(tv)]
                                    + Seq::<ContextView>::empty());
                            }
                        }
                        Ok(Action::Handled)
                    },
                    TokenClass::Organization => {
                        let org_name = tokens[vi + 1].clone();
                        let ghost ov = org_name@;
                        self.contexts.push(ProgramContext::OrganizationContext(org_name));
                        proof {
                            assert(self.contexts.deep_view() =~= old(
                                self,
                            ).contexts.deep_view().push(ContextView::Organization(ov)));
                        }
                        if is_stats {
                            let ghost mid = self.contexts.deep_view();
                            self.contexts.push(ProgramContext::StatsContext);
                            proof {
                                assert(self.contexts.deep_view() =~= mid.push(ContextView::Stats));
                                assert(self.contexts.deep_view() =~= old(
                                    self,
                                ).contexts.deep_view() + seq![ContextView::Organization(ov)]
                                    + seq![ContextView::Stats]);
                            }
                        } else {
                            proof {
                                assert(self.contexts.deep_view() =~= old(
                                    self,
                                ).contexts.deep_view() + seq![ContextView::Organization(ov)]
                                    + Seq::<ContextView>::empty());
                            }
                        }
                        Ok(Action::Handled)
                    },
                    TokenClass::Invalid => Err(EvalError::InvalidInput),
                }
            } else if is_stats {
                self.contexts.push(ProgramContext::StatsContext);
                proof {
                    assert(self.contexts.deep_view() =~= old(self).contexts.deep_view().push(
                        ContextView::Stats,
                    ));
                }
                Ok(Action::Handled)
            } else {
                Err(EvalError::MissingArgument)
            }
        } else if str_eq(verb.as_str(), "exit") {
            Err(EvalError::Terminate)
        } else {
            Err(EvalError::UnknownCommand)
        }
    }

    /// The team table: delegate inside a nested `Stats` or `History`
    /// scope, open one otherwise.
    fn eval_team(&mut self, name: String, verb: &String) -> (r: Result<Action, EvalError>)
        requires
            old(self).stack().len() >= 1,
        ensures
            final(self).configuration() == old(self).configuration(),
            final(self).stack() == dispatch_team(old(self).stack(), name@, verb@).stack,
            outcome_view(r) == dispatch_team(old(self).stack(), name@, verb@).outcome,
    {
        if self.contexts.len() >= 2 {
            match &self.contexts[1] {
                ProgramContext::StatsContext => {
                    if str_eq(verb.as_str(), "graph") {
                        Ok(Action::TeamStatsGraph { team: name })
                    } else if str_eq(verb.as_str(), "competition") {
                        Ok(Action::TeamStatsCompetition { team: name })
                    } else {
                        Err(EvalError::UnknownCommand)
                    }
                },
                ProgramContext::HistoryContext => Ok(Action::TeamHistory { team: name }),
                _ => Err(EvalError::UnknownCommand),
            }
        } else {
            if str_eq(verb.as_str(), "stats") {
                self.contexts.push(ProgramContext::StatsContext);
                proof {
                    assert(self.contexts.deep_view() =~= old(self).contexts.deep_view().push(
                        ContextView::Stats,
                    ));
                }
                Ok(Action::Handled)
            } else if str_eq(verb.as_str(), "history") {
                self.contexts.push(ProgramContext::HistoryContext);
                proof {
                    assert(self.contexts.deep_view() =~= old(self).contexts.deep_view().push(
                        ContextView::History,
                    ));
                }
                Ok(Action::Handled)
            } else {
                Err(EvalError::UnknownCommand)
            }
        }
    }

    /// The organization table, symmetric with the team table, plus the
    /// organization-only verbs.
    fn eval_organization(&mut self, name: String, verb: &String) -> (r: Result<Action, EvalError>)
        requires
            old(self).stack().len() >= 1,
        ensures
            final(self).configuration() == old(self).configuration(),
            final(self).stack() == dispatch_organization(old(self).stack(), name@, verb@).stack,
            outcome_view(r) == dispatch_organization(old(self).stack(), name@, verb@).outcome,
    {
        if self.contexts.len() >= 2 {
            match &self.contexts[1] {
                ProgramContext::StatsContext => {
                    if str_eq(verb.as_str(), "graph") {
                        Ok(Action::OrgStatsGraph { organization: name })
                    } else if str_eq(verb.as_str(), "competition") {
                        Ok(Action::OrgStatsCompetition { organization: name })
                    } else {
                        Err(EvalError::UnknownCommand)
                    }
                },
                ProgramContext::HistoryContext => Ok(Action::OrgHistory { organization: name }),
                _ => Err(EvalError::UnknownCommand),
            }
        } else {
            if str_eq(verb.as_str(), "list") {
                Ok(Action::OrgList { organization: name })
            } else if str_eq(verb.as_str(), "graph") {
                Ok(Action::OrgGraph { organization: name })
            } else if str_eq(verb.as_str(), "competition") {
                Ok(Action::OrgCompetition { organization: name })
            } else {
                Err(EvalError::UnknownCommand)
            }
        }
    }

    /// The competition table: a nested team scope queries the match
    /// service for that team; the bare scope opens a team, queries
    /// matches, or waits.
    fn eval_competition(&mut self, sku: String, tokens: &Vec<String>, verb: &String) -> (r: Result<
        Action,
        EvalError,
    >)
        requires
            old(self).stack().len() >= 1,
            tokens.len() >= 1,
        ensures
            final(self).configuration() == old(self).configuration(),
            final(self).stack() == dispatch_competition(
                old(self).stack(),
                sku@,
                verb@,
                tokens.deep_view(),
            ).stack,
            outcome_view(r) == dispatch_competition(
                old(self).stack(),
                sku@,
                verb@,
                tokens.deep_view(),
            ).outcome,
    {
        if self.contexts.len() >= 2 {
            match &self.contexts[1] {
                ProgramContext::TeamContext(team_name) => {
                    let team_name = team_name.clone();
                    match match_verb_exec(verb) {
                        Some(v) => Ok(
                            Action::MatchQuery { sku, team: Some(team_name), verb: v },
                        ),
                        None => Err(EvalError::UnknownCommand),
                    }
                },
                ProgramContext::MatchContext(m) => Ok(
                    Action::DescribeMatch { match_num: m.match_num },
                ),
                ProgramContext::MatchListContext(_) => Ok(Action::DescribeMatchList),
                _ => Err(EvalError::UnknownCommand),
            }
        } else {
            if str_eq(verb.as_str(), "team") {
                if tokens.len() >= 2 {
                    let class = classify(tokens[1].as_str());
                    if class == TokenClass::Team {
                        let team_name = to_uppercase(tokens[1].as_str());
                        let ghost tv = team_name@;
                        self.contexts.push(ProgramContext::TeamContext(team_name));
                        proof {
                            assert(self.contexts.deep_view() =~= old(
                                self,
                            ).contexts.deep_view().push(ContextView::Team(tv)));
                        }
                        Ok(Action::Handled)
                    } else {
                        Err(EvalError::InvalidInput)
                    }
                } else {
                    Err(EvalError::MissingArgument)
                }
            } else if str_eq(verb.as_str(), "match") {
                if tokens.len() >= 2 {
                    let sub = to_lowercase(tokens[1].as_str());
                    match match_verb_exec(&sub) {
                        Some(v) => Ok(Action::MatchQuery { sku, team: None, verb: v }),
                        None => Err(EvalError::UnknownCommand),
                    }
                } else {
                    Err(EvalError::MissingArgument)
                }
            } else if str_eq(verb.as_str(), "wait") {
                Ok(Action::CompetitionWait { sku })
            } else {
                Err(EvalError::UnknownCommand)
            }
        }
    }

    /// The standalone stats table: the verb itself is the identifier to
    /// classify and delegate.
    fn eval_stats(&mut self, tokens: &Vec<String>) -> (r: Result<Action, EvalError>)
        requires
            tokens.len() >= 1,
        ensures
            final(self).configuration() == old(self).configuration(),
            final(self).stack() == dispatch_stats(old(self).stack(), tokens.deep_view()).stack,
            outcome_view(r) == dispatch_stats(old(self).stack(), tokens.deep_view()).outcome,
    {
        match classify(tokens[0].as_str()) {
            TokenClass::Team => {
                let team_name = to_uppercase(tokens[0].as_str());
                Ok(Action::StatsForTeam { team: team_name })
            },
            TokenClass::Organization => {
                let org_name = tokens[0].clone();
                Ok(Action::StatsForOrganization { organization: org_name })
            },
            TokenClass::Invalid => Err(EvalError::InvalidInput),
        }
    }
}

/// Recognize a match-service subcommand.
fn match_verb_exec(v: &String) -> (r: Option<MatchVerb>)
    ensures
        r == match_verb_of(v@),
{
    if str_eq(v.as_str(), "load") {
        Some(MatchVerb::Load)
    } else if str_eq(v.as_str(), "next") {
        Some(MatchVerb::Next)
    } else if str_eq(v.as_str(), "prev") {
        Some(MatchVerb::Prev)
    } else if str_eq(v.as_str(), "lookup") {
        Some(MatchVerb::Lookup)
    } else {
        None
    }
}

/// Pushing a context and immediately popping it restores the exact prior
/// stack, payloads included.
pub proof fn lemma_push_then_pop_restores(stack: Seq<ContextView>, c: ContextView)
    ensures
        stack.push(c).drop_last() == stack,
        stack.push(c).last() == c,
{
    assert(stack.push(c).drop_last() =~= stack);
}

} // verus!
