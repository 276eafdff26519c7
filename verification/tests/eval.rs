use repl_core::config::ReplConfiguration;
use repl_core::context::{Match, ProgramContext};
use repl_core::dispatch::{Action, EvalError, MatchVerb};
use repl_core::repl::ReplInterface;

fn session() -> ReplInterface {
    ReplInterface::new(ReplConfiguration::default())
}

fn eval(repl: &mut ReplInterface, line: &str) -> Result<Action, EvalError> {
    repl.eval(String::from(line))
}

fn expect_competition(c: &ProgramContext, sku: &str) {
    match c {
        ProgramContext::CompetitionContext(s) => assert_eq!(s.as_str(), sku),
        _ => panic!("expected a competition context"),
    }
}

fn expect_team(c: &ProgramContext, name: &str) {
    match c {
        ProgramContext::TeamContext(s) => assert_eq!(s.as_str(), name),
        _ => panic!("expected a team context"),
    }
}

fn expect_organization(c: &ProgramContext, name: &str) {
    match c {
        ProgramContext::OrganizationContext(s) => assert_eq!(s.as_str(), name),
        _ => panic!("expected an organization context"),
    }
}

fn expect_stats(c: &ProgramContext) {
    assert!(matches!(c, ProgramContext::StatsContext));
}

#[test]
fn comp_at_root_pushes_competition() {
    let mut repl = session();
    let r = eval(&mut repl, "comp 12345");
    assert!(matches!(r, Ok(Action::Handled)));
    assert_eq!(repl.get_contexts().len(), 1);
    expect_competition(&repl.get_contexts()[0], "12345");
    assert_eq!(repl.prompt(), "12345> ");
}

#[test]
fn competition_long_verb_works_too() {
    let mut repl = session();
    let r = eval(&mut repl, "competition RE-VRC");
    assert!(matches!(r, Ok(Action::Handled)));
    expect_competition(&repl.get_contexts()[0], "RE-VRC");
}

#[test]
fn stats_with_team_ident_pushes_team_then_stats() {
    let mut repl = session();
    let r = eval(&mut repl, "stats 1234A");
    assert!(matches!(r, Ok(Action::Handled)));
    assert_eq!(repl.get_contexts().len(), 2);
    expect_team(&repl.get_contexts()[0], "1234A");
    expect_stats(&repl.get_contexts()[1]);
    assert_eq!(repl.prompt(), "1234A> stats> ");
}

#[test]
fn team_identifiers_are_canonicalized_to_upper_case() {
    let mut repl = session();
    let r = eval(&mut repl, "stats 1234a");
    assert!(matches!(r, Ok(Action::Handled)));
    expect_team(&repl.get_contexts()[0], "1234A");
}

#[test]
fn team_with_organization_ident_pushes_organization_only() {
    let mut repl = session();
    let r = eval(&mut repl, "team 99");
    assert!(matches!(r, Ok(Action::Handled)));
    assert_eq!(repl.get_contexts().len(), 1);
    expect_organization(&repl.get_contexts()[0], "99");
    assert_eq!(repl.prompt(), "99> ");
}

#[test]
fn nested_team_query_is_scoped_to_competition_and_team() {
    let mut repl = session();
    assert!(eval(&mut repl, "comp 1234").is_ok());
    assert!(eval(&mut repl, "team 56A").is_ok());
    assert_eq!(repl.get_contexts().len(), 2);
    let r = eval(&mut repl, "next");
    match r {
        Ok(Action::MatchQuery { sku, team, verb }) => {
            assert_eq!(sku, "1234");
            assert_eq!(team.as_deref(), Some("56A"));
            assert_eq!(verb, MatchVerb::Next);
        },
        _ => panic!("expected a match query"),
    }
    assert_eq!(repl.get_contexts().len(), 2);
    expect_competition(&repl.get_contexts()[0], "1234");
    expect_team(&repl.get_contexts()[1], "56A");
}

#[test]
fn exit_at_empty_stack_terminates() {
    let mut repl = session();
    let r = eval(&mut repl, "exit");
    assert_eq!(r.unwrap_err(), EvalError::Terminate);
    assert_eq!(repl.get_contexts().len(), 0);
}

#[test]
fn exit_pops_one_level() {
    let mut repl = session();
    assert!(eval(&mut repl, "comp 1234").is_ok());
    assert!(eval(&mut repl, "team 56A").is_ok());
    assert_eq!(repl.get_contexts().len(), 2);
    let r = eval(&mut repl, "exit");
    assert!(matches!(r, Ok(Action::Handled)));
    assert_eq!(repl.get_contexts().len(), 1);
    expect_competition(&repl.get_contexts()[0], "1234");
    let r = eval(&mut repl, "exit");
    assert!(matches!(r, Ok(Action::Handled)));
    assert_eq!(repl.get_contexts().len(), 0);
    let r = eval(&mut repl, "exit");
    assert_eq!(r.unwrap_err(), EvalError::Terminate);
}

#[test]
fn global_reroots_one_line_and_keeps_the_stack() {
    let mut repl = session();
    assert!(eval(&mut repl, "comp 1234").is_ok());
    let r = eval(&mut repl, "global stats");
    assert!(matches!(r, Ok(Action::Handled)));
    assert_eq!(repl.get_contexts().len(), 2);
    expect_competition(&repl.get_contexts()[0], "1234");
    expect_stats(&repl.get_contexts()[1]);
}

#[test]
fn global_without_a_command_is_a_missing_argument() {
    let mut repl = session();
    assert!(eval(&mut repl, "comp 1234").is_ok());
    let r = eval(&mut repl, "global");
    assert_eq!(r.unwrap_err(), EvalError::MissingArgument);
    assert_eq!(repl.get_contexts().len(), 1);
}

#[test]
fn global_exit_terminates_without_popping() {
    let mut repl = session();
    assert!(eval(&mut repl, "comp 1234").is_ok());
    let r = eval(&mut repl, "global exit");
    assert_eq!(r.unwrap_err(), EvalError::Terminate);
    assert_eq!(repl.get_contexts().len(), 1);
    expect_competition(&repl.get_contexts()[0], "1234");
}

#[test]
fn verbs_are_case_insensitive() {
    let mut repl = session();
    let r = eval(&mut repl, "COMP 12345");
    assert!(matches!(r, Ok(Action::Handled)));
    expect_competition(&repl.get_contexts()[0], "12345");
    let r = eval(&mut repl, "EXIT");
    assert!(matches!(r, Ok(Action::Handled)));
    assert_eq!(repl.get_contexts().len(), 0);
}

#[test]
fn blank_lines_are_consumed_silently() {
    let mut repl = session();
    assert!(matches!(eval(&mut repl, ""), Ok(Action::Handled)));
    assert!(matches!(eval(&mut repl, "   \t  "), Ok(Action::Handled)));
    assert_eq!(repl.get_contexts().len(), 0);
    assert!(eval(&mut repl, "comp 1234").is_ok());
    assert!(matches!(eval(&mut repl, ""), Ok(Action::Handled)));
    assert_eq!(repl.get_contexts().len(), 1);
}

#[test]
fn stats_scope_demands_an_identifier() {
    let mut repl = session();
    assert!(matches!(eval(&mut repl, "stats"), Ok(Action::Handled)));
    assert_eq!(eval(&mut repl, "   ").unwrap_err(), EvalError::MissingArgument);
    assert_eq!(repl.get_contexts().len(), 1);
}

#[test]
fn an_inner_digits_letters_run_is_never_guessed_a_team() {
    let mut repl = session();
    assert_eq!(eval(&mut repl, "team A1B").unwrap_err(), EvalError::InvalidInput);
    assert_eq!(eval(&mut repl, "stats 1A-").unwrap_err(), EvalError::InvalidInput);
    assert_eq!(repl.get_contexts().len(), 0);
}

#[test]
fn failed_validation_leaves_the_stack_unmodified() {
    let mut repl = session();
    assert!(eval(&mut repl, "comp 1234").is_ok());
    assert_eq!(eval(&mut repl, "team x1").unwrap_err(), EvalError::InvalidInput);
    assert_eq!(eval(&mut repl, "team").unwrap_err(), EvalError::MissingArgument);
    assert_eq!(eval(&mut repl, "match").unwrap_err(), EvalError::MissingArgument);
    assert_eq!(eval(&mut repl, "frobnicate").unwrap_err(), EvalError::UnknownCommand);
    assert_eq!(repl.get_contexts().len(), 1);
    expect_competition(&repl.get_contexts()[0], "1234");
}

#[test]
fn root_errors() {
    let mut repl = session();
    assert_eq!(eval(&mut repl, "team").unwrap_err(), EvalError::MissingArgument);
    assert_eq!(eval(&mut repl, "comp").unwrap_err(), EvalError::MissingArgument);
    assert_eq!(eval(&mut repl, "team abc").unwrap_err(), EvalError::InvalidInput);
    assert_eq!(eval(&mut repl, "nonsense").unwrap_err(), EvalError::UnknownCommand);
    assert_eq!(repl.get_contexts().len(), 0);
}

#[test]
fn competition_team_requires_team_shape() {
    let mut repl = session();
    assert!(eval(&mut repl, "comp 1234").is_ok());
    // An organization code is no team identifier here.
    assert_eq!(eval(&mut repl, "team 99").unwrap_err(), EvalError::InvalidInput);
    let r = eval(&mut repl, "team 56a");
    assert!(matches!(r, Ok(Action::Handled)));
    expect_team(&repl.get_contexts()[1], "56A");
}

#[test]
fn competition_match_subcommands_query_the_match_service() {
    let mut repl = session();
    assert!(eval(&mut repl, "comp 1234").is_ok());
    for (line, want) in [
        ("match load", MatchVerb::Load),
        ("match next", MatchVerb::Next),
        ("match prev", MatchVerb::Prev),
        ("match LOOKUP", MatchVerb::Lookup),
    ] {
        match eval(&mut repl, line) {
            Ok(Action::MatchQuery { sku, team, verb }) => {
                assert_eq!(sku, "1234");
                assert_eq!(team, None);
                assert_eq!(verb, want);
            },
            _ => panic!("expected a match query"),
        }
    }
    assert!(matches!(eval(&mut repl, "match bogus"), Err(EvalError::UnknownCommand)));
}

#[test]
fn competition_wait_routes_to_the_wait_collaborator() {
    let mut repl = session();
    assert!(eval(&mut repl, "comp 1234").is_ok());
    match eval(&mut repl, "wait") {
        Ok(Action::CompetitionWait { sku }) => assert_eq!(sku, "1234"),
        _ => panic!("expected a wait action"),
    }
}

#[test]
fn team_scope_opens_stats_and_history() {
    let mut repl = session();
    assert!(eval(&mut repl, "team 1234A").is_ok());
    assert!(matches!(eval(&mut repl, "stats"), Ok(Action::Handled)));
    assert_eq!(repl.prompt(), "1234A> stats> ");
    match eval(&mut repl, "graph") {
        Ok(Action::TeamStatsGraph { team }) => assert_eq!(team, "1234A"),
        _ => panic!("expected a team stats graph"),
    }
    match eval(&mut repl, "competition") {
        Ok(Action::TeamStatsCompetition { team }) => assert_eq!(team, "1234A"),
        _ => panic!("expected team competition stats"),
    }
    assert!(matches!(eval(&mut repl, "bogus"), Err(EvalError::UnknownCommand)));
    assert!(matches!(eval(&mut repl, "exit"), Ok(Action::Handled)));
    assert!(matches!(eval(&mut repl, "history"), Ok(Action::Handled)));
    match eval(&mut repl, "show") {
        Ok(Action::TeamHistory { team }) => assert_eq!(team, "1234A"),
        _ => panic!("expected team history"),
    }
}

#[test]
fn organization_scope_delegates() {
    let mut repl = session();
    assert!(eval(&mut repl, "team 99").is_ok());
    match eval(&mut repl, "list") {
        Ok(Action::OrgList { organization }) => assert_eq!(organization, "99"),
        _ => panic!("expected an organization listing"),
    }
    match eval(&mut repl, "graph") {
        Ok(Action::OrgGraph { organization }) => assert_eq!(organization, "99"),
        _ => panic!("expected an organization graph"),
    }
    match eval(&mut repl, "competition") {
        Ok(Action::OrgCompetition { organization }) => assert_eq!(organization, "99"),
        _ => panic!("expected organization competition stats"),
    }
    assert!(matches!(eval(&mut repl, "bogus"), Err(EvalError::UnknownCommand)));
    assert!(matches!(eval(&mut repl, "stats"), Err(EvalError::UnknownCommand)));
}

#[test]
fn organization_nested_scopes_delegate_symmetrically() {
    let mut repl = session();
    assert!(eval(&mut repl, "team 99").is_ok());
    repl.add_context(ProgramContext::StatsContext);
    match eval(&mut repl, "graph") {
        Ok(Action::OrgStatsGraph { organization }) => assert_eq!(organization, "99"),
        _ => panic!("expected organization stats graph"),
    }
    let _ = repl.pop_context();
    repl.add_context(ProgramContext::HistoryContext);
    match eval(&mut repl, "anything") {
        Ok(Action::OrgHistory { organization }) => assert_eq!(organization, "99"),
        _ => panic!("expected organization history"),
    }
}

#[test]
fn standalone_stats_classifies_its_target() {
    let mut repl = session();
    assert!(matches!(eval(&mut repl, "stats"), Ok(Action::Handled)));
    assert_eq!(repl.prompt(), "stats> ");
    match eval(&mut repl, "1234a") {
        Ok(Action::StatsForTeam { team }) => assert_eq!(team, "1234A"),
        _ => panic!("expected team stats"),
    }
    match eval(&mut repl, "99") {
        Ok(Action::StatsForOrganization { organization }) => assert_eq!(organization, "99"),
        _ => panic!("expected organization stats"),
    }
    assert!(matches!(eval(&mut repl, "x!"), Err(EvalError::InvalidInput)));
}

#[test]
fn config_scope_forwards_the_line_verbatim() {
    let mut repl = session();
    assert!(matches!(eval(&mut repl, "config"), Ok(Action::Handled)));
    assert_eq!(repl.prompt(), "config> ");
    match eval(&mut repl, "set Key Value") {
        Ok(Action::ConfigCommand { words }) => {
            assert_eq!(words, vec!["set", "Key", "Value"]);
        },
        _ => panic!("expected a config command"),
    }
}

#[test]
fn nested_match_contexts_are_described() {
    let m = Match {
        team_list: vec![],
        round: 2,
        match_num: 42,
        division: String::from("Science"),
        red1: String::from("1A"),
        red2: String::from("2B"),
        blue1: String::from("3C"),
        blue2: String::from("4D"),
        red_score: 10,
        blue_score: 12,
        scored: true,
    };
    let mut repl = session();
    assert!(eval(&mut repl, "comp 1234").is_ok());
    repl.add_context(ProgramContext::MatchContext(m));
    match eval(&mut repl, "show") {
        Ok(Action::DescribeMatch { match_num }) => assert_eq!(match_num, 42),
        _ => panic!("expected a match description"),
    }
    let _ = repl.pop_context();
    repl.add_context(ProgramContext::MatchListContext(vec![]));
    assert!(matches!(eval(&mut repl, "show"), Ok(Action::DescribeMatchList)));
}

#[test]
fn push_then_pop_restores_the_prior_stack() {
    let mut repl = session();
    assert!(eval(&mut repl, "comp 1234").is_ok());
    let before = repl.prompt();
    repl.add_context(ProgramContext::TeamContext(String::from("56A")));
    let popped = repl.pop_context();
    match popped {
        Some(ProgramContext::TeamContext(name)) => assert_eq!(name.as_str(), "56A"),
        _ => panic!("expected the team context back"),
    }
    assert_eq!(repl.prompt(), before);
    assert_eq!(repl.get_contexts().len(), 1);
}

#[test]
fn top_and_clear() {
    let mut repl = session();
    assert!(repl.top_context().is_none());
    assert!(eval(&mut repl, "comp 1234").is_ok());
    match repl.top_context() {
        Some(ProgramContext::CompetitionContext(sku)) => assert_eq!(sku.as_str(), "1234"),
        _ => panic!("expected the competition on top"),
    }
    repl.clear_contexts();
    assert_eq!(repl.get_contexts().len(), 0);
    assert_eq!(repl.prompt(), "> ");
}

#[test]
fn configuration_is_read_only_and_exposed() {
    let config = ReplConfiguration::new(true, String::from("1234A"));
    let mut repl = ReplInterface::new(config);
    assert_eq!(repl.get_configuration().get_current_team().as_str(), "1234A");
    assert_eq!(*repl.get_configuration().is_match_load_default_to_organization(), true);
    assert!(eval(&mut repl, "comp 1234").is_ok());
    assert_eq!(repl.get_configuration().get_current_team().as_str(), "1234A");

    let default = ReplConfiguration::default();
    assert_eq!(default.get_current_team().as_str(), "");
    assert_eq!(*default.is_match_load_default_to_organization(), false);
}
