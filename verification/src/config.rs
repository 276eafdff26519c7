//! The process-wide configuration record: a default team and a flag that
//! makes `match load` default to the whole organization. It is loaded once
//! at session start from an external source (on a read failure the default
//! record stands in) and is read-only for the lifetime of the dispatcher.

use vstd::prelude::*;

verus! {

/// The mathematical value of a `ReplConfiguration`.
#[verifier::ext_equal]
pub ghost struct ConfigView {
    pub match_load_default_to_organization: bool,
    pub current_team: Seq<char>,
}

/// Session configuration: the current team (empty means "unset") and
/// whether `match load` defaults to the organization's match list.
pub struct ReplConfiguration {
    match_load_default_to_organization: bool,
    current_team: String,
}

impl View for ReplConfiguration {
    type V = ConfigView;

    closed spec fn view(&self) -> ConfigView {
        ConfigView {
            match_load_default_to_organization: self.match_load_default_to_organization,
            current_team: self.current_team@,
        }
    }
}

impl ReplConfiguration {
    /// A configuration with the given fields.
    pub fn new(match_load_default_to_organization: bool, current_team: String) -> (r:
        ReplConfiguration)
        ensures
            r@ == (ConfigView {
                match_load_default_to_organization,
                current_team: current_team@,
            }),
    {
        ReplConfiguration { match_load_default_to_organization, current_team }
    }

    /// The configuration a session starts from when none was loaded:
    /// no current team, `match load` scoped to the team.
    pub fn default() -> (r: ReplConfiguration)
        ensures
            r@ == (ConfigView {
                match_load_default_to_organization: false,
                current_team: Seq::<char>::empty(),
            }),
    {
        ReplConfiguration { match_load_default_to_organization: false, current_team: String::new() }
    }

    /// The team commands default to when none is named; empty means unset.
    pub fn get_current_team(&self) -> (r: &String)
        ensures
            r@ == self@.current_team,
    {
        &self.current_team
    }

    /// Whether `match load` defaults to the organization's match list.
    pub fn is_match_load_default_to_organization(&self) -> (r: &bool)
        ensures
            *r == self@.match_load_default_to_organization,
    {
        &self.match_load_default_to_organization
    }
}

} // verus!
