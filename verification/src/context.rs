//! The context model: one level of nested shell scope, the match record a
//! context can carry, and the prompt segment each context renders.
//!
//! `BaseContext` is a sentinel for "no enclosing context": it is never
//! pushed onto the stack and rendering it as a prompt segment is a
//! programming error, so the renderer requires its absence. Every other
//! variant renders as `"<label>> "`, where the label is the variant's
//! payload or a fixed literal for payload-less variants.

use crate::text::dec_str;
use crate::text::u16_to_dec;
use vstd::prelude::*;

verus! {

/// One played or scheduled match: round, number, division, the four
/// participants, the two scores and whether it has been scored.
pub struct Match {
    pub team_list: Vec<String>,
    pub round: u8,
    pub match_num: u16,
    pub division: String,
    pub red1: String,
    pub red2: String,
    pub blue1: String,
    pub blue2: String,
    pub red_score: u16,
    pub blue_score: u16,
    pub scored: bool,
}

/// The mathematical value of a `Match`.
#[verifier::ext_equal]
pub ghost struct MatchView {
    pub team_list: Seq<Seq<char>>,
    pub round: u8,
    pub match_num: u16,
    pub division: Seq<char>,
    pub red1: Seq<char>,
    pub red2: Seq<char>,
    pub blue1: Seq<char>,
    pub blue2: Seq<char>,
    pub red_score: u16,
    pub blue_score: u16,
    pub scored: bool,
}

impl View for Match {
    type V = MatchView;

    open spec fn view(&self) -> MatchView {
        MatchView {
            team_list: self.team_list.deep_view(),
            round: self.round,
            match_num: self.match_num,
            division: self.division@,
            red1: self.red1@,
            red2: self.red2@,
            blue1: self.blue1@,
            blue2: self.blue2@,
            red_score: self.red_score,
            blue_score: self.blue_score,
            scored: self.scored,
        }
    }
}

impl DeepView for Match {
    type V = MatchView;

    open spec fn deep_view(&self) -> MatchView {
        self.view()
    }
}

/// One level of nested shell scope, with its identifying payload.
pub enum ProgramContext {
    CompetitionContext(String),
    DivisionContext(String),
    RoundContext(u16),
    MatchListContext(Vec<Match>),
    MatchContext(Match),
    ConfigContext,
    StatsContext,
    HistoryContext,
    TeamContext(String),
    OrganizationContext(String),
    BaseContext,
}

/// The mathematical value of a `ProgramContext`.
#[verifier::ext_equal]
pub ghost enum ContextView {
    Competition(Seq<char>),
    Division(Seq<char>),
    Round(u16),
    MatchList(Seq<MatchView>),
    Match(MatchView),
    Config,
    Stats,
    History,
    Team(Seq<char>),
    Organization(Seq<char>),
    Base,
}

impl View for ProgramContext {
    type V = ContextView;

    open spec fn view(&self) -> ContextView {
        match self {
            ProgramContext::CompetitionContext(sku) => ContextView::Competition(sku@),
            ProgramContext::DivisionContext(name) => ContextView::Division(name@),
            ProgramContext::RoundContext(num) => ContextView::Round(*num),
            ProgramContext::MatchListContext(list) => ContextView::MatchList(list.deep_view()),
            ProgramContext::MatchContext(m) => ContextView::Match(m@),
            ProgramContext::ConfigContext => ContextView::Config,
            ProgramContext::StatsContext => ContextView::Stats,
            ProgramContext::HistoryContext => ContextView::History,
            ProgramContext::TeamContext(name) => ContextView::Team(name@),
            ProgramContext::OrganizationContext(name) => ContextView::Organization(name@),
            ProgramContext::BaseContext => ContextView::Base,
        }
    }
}

impl DeepView for ProgramContext {
    type V = ContextView;

    open spec fn deep_view(&self) -> ContextView {
        self.view()
    }
}

/// The prompt segment of one context: its label followed by `"> "`.
/// `Base` carries no segment; it must never reach the renderer.
pub open spec fn segment(c: ContextView) -> Seq<char> {
    match c {
        ContextView::Competition(sku) => sku + "> "@,
        ContextView::Division(name) => name + "> "@,
        ContextView::Round(num) => dec_str(num as nat) + "> "@,
        ContextView::MatchList(_) => "list> "@,
        ContextView::Match(m) => "#"@ + dec_str(m.match_num as nat) + "> "@,
        ContextView::Config => "config> "@,
        ContextView::Stats => "stats> "@,
        ContextView::History => "history> "@,
        ContextView::Team(name) => name + "> "@,
        ContextView::Organization(name) => name + "> "@,
        ContextView::Base => Seq::empty(),
    }
}

/// The segments of a stack, outermost first, concatenated.
pub open spec fn render_segments(stack: Seq<ContextView>) -> Seq<char>
    decreases stack.len(),
{
    if stack.len() == 0 {
        Seq::empty()
    } else {
        segment(stack[0]) + render_segments(stack.drop_first())
    }
}

/// What the whole prompt shows: the fixed root marker for an empty stack,
/// the concatenated segments otherwise.
pub open spec fn render_prompt(stack: Seq<ContextView>) -> Seq<char> {
    if stack.len() == 0 {
        "> "@
    } else {
        render_segments(stack)
    }
}

/// Every renderable context contributes a visible segment of at least its
/// two-character `"> "` terminator: an empty segment would desynchronize
/// the prompt from the stack's visual depth.
pub proof fn lemma_segment_nonempty(c: ContextView)
    requires
        c != ContextView::Base,
    ensures
        segment(c).len() >= 2,
{
    reveal_strlit("> ");
    reveal_strlit("list> ");
    reveal_strlit("config> ");
    reveal_strlit("stats> ");
    reveal_strlit("history> ");
    reveal_strlit("#");
}

/// The prompt mirrors the stack: the empty stack always renders as the
/// fixed root marker, and a stack of depth `n` renders as exactly the `n`
/// per-context segments, in stack order, concatenated, each non-empty
/// wherever the `Base` sentinel keeps off the stack.
pub proof fn lemma_prompt_mirrors_stack(stack: Seq<ContextView>)
    ensures
        render_prompt(Seq::<ContextView>::empty()) == "> "@,
        stack.len() > 0 ==> render_prompt(stack) == stack.map_values(
            |c: ContextView| segment(c),
        ).flatten(),
        forall|i: int|
            0 <= i < stack.len() && stack[i] != ContextView::Base ==> #[trigger] segment(
                stack[i],
            ).len() >= 2,
{
    lemma_render_is_segment_concat(stack);
    assert forall|i: int|
        0 <= i < stack.len() && stack[i] != ContextView::Base implies #[trigger] segment(
        stack[i],
    ).len() >= 2 by {
        lemma_segment_nonempty(stack[i]);
    }
}

/// Rendering a stack of depth `n` yields exactly the `n` per-context
/// segments, in stack order, concatenated.
pub proof fn lemma_render_is_segment_concat(stack: Seq<ContextView>)
    ensures
        render_segments(stack) == stack.map_values(|c: ContextView| segment(c)).flatten(),
    decreases stack.len(),
{
    let segs = stack.map_values(|c: ContextView| segment(c));
    if stack.len() == 0 {
        assert(segs =~= Seq::<Seq<char>>::empty());
        assert(segs.flatten() =~= Seq::<char>::empty());
    } else {
        lemma_render_is_segment_concat(stack.drop_first());
        assert(stack.drop_first().map_values(|c: ContextView| segment(c)) =~= segs.drop_first());
        assert(segs.flatten() == segs.first() + segs.drop_first().flatten());
        assert(render_segments(stack) =~= segs.flatten());
    }
}

/// Render one context's prompt segment.
pub fn render_segment(c: &ProgramContext) -> (r: String)
    requires
        c@ != ContextView::Base,
    ensures
        r@ == segment(c@),
{
    match c {
        ProgramContext::CompetitionContext(sku) => {
            let mut s = sku.clone();
            s.append("> ");
            s
        },
        ProgramContext::DivisionContext(name) => {
            let mut s = name.clone();
            s.append("> ");
            s
        },
        ProgramContext::RoundContext(num) => {
            let mut s = u16_to_dec(*num);
            s.append("> ");
            s
        },
        ProgramContext::MatchListContext(_) => String::from_str("list> "),
        ProgramContext::MatchContext(m) => {
            let mut s = String::from_str("#");
            let digits = u16_to_dec(m.match_num);
            s.append(digits.as_str());
            s.append("> ");
            s
        },
        ProgramContext::ConfigContext => String::from_str("config> "),
        ProgramContext::StatsContext => String::from_str("stats> "),
        ProgramContext::HistoryContext => String::from_str("history> "),
        ProgramContext::TeamContext(name) => {
            let mut s = name.clone();
            s.append("> ");
            s
        },
        ProgramContext::OrganizationContext(name) => {
            let mut s = name.clone();
            s.append("> ");
            s
        },
        ProgramContext::BaseContext => {
            proof {
                assert(false);
            }
            String::new()
        },
    }
}

} // verus!
