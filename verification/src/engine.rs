//! The engine: iterates recipes in ascending name order, drives the link
//! processor over each recipe's link section, and aggregates outcomes keyed
//! by recipe name.
//!
//! The engine never touches the filesystem itself. [`Engine::start`] yields
//! a [`Session`]; the caller repeatedly asks for the next [`Action`],
//! carries it out (probing paths for existence, creating a symlink), and
//! hands the observed [`Event`] back to [`Session::step`], until the next
//! action is [`Action::Done`]. Partial failure of one link never aborts the
//! processing of subsequent links or recipes.

use vstd::prelude::*;

use crate::model::spec_has_links;
use crate::model::spec_links;
use crate::model::LinkEntry;
use crate::model::PrivilegeLevel;
use crate::model::RecipeEntry;
use crate::outcome::adds;
use crate::outcome::Outcomes;
use crate::outcome::OutcomeV;
use crate::processor::create_failed_outcome_spec;
use crate::processor::created_outcome_spec;
use crate::processor::pair_step_outcomes_spec;
use crate::processor::pending_create_spec;
use crate::processor::LinkProcessor;
use crate::processor::MutationResult;
use crate::processor::PairPaths;
use crate::text::has_tilde_prefix;
use crate::text::joined_path;

verus! {

/// Strict lexicographic order on character sequences, by code point, with a
/// proper prefix ordered first.
pub open spec fn lex_lt(a: Seq<char>, b: Seq<char>) -> bool
    decreases a.len(),
{
    if b.len() == 0 {
        false
    } else if a.len() == 0 {
        true
    } else if a[0] != b[0] {
        (a[0] as u32) < (b[0] as u32)
    } else {
        lex_lt(a.drop_first(), b.drop_first())
    }
}

/// No sequence is lexicographically before itself.
pub proof fn lemma_lex_lt_irreflexive(a: Seq<char>)
    ensures
        !lex_lt(a, a),
    decreases a.len(),
{
    if a.len() > 0 {
        lemma_lex_lt_irreflexive(a.drop_first());
    }
}

/// Whether the recipes are in strictly ascending name order, as the sorted
/// mapping of the external loader hands them over.
pub open spec fn strictly_sorted_names(recipes: Seq<RecipeEntry>) -> bool {
    forall|i: int, j: int|
        0 <= i < j < recipes.len() ==> lex_lt(
            #[trigger] recipes[i].name@,
            #[trigger] recipes[j].name@,
        )
}

/// The names of the recipes with a non-empty link section, in recipe order:
/// exactly the names a finished run reports outcomes under.
pub open spec fn reported_names(recipes: Seq<RecipeEntry>) -> Seq<Seq<char>>
    decreases recipes.len(),
{
    if recipes.len() == 0 {
        Seq::empty()
    } else if spec_has_links(recipes.last()) {
        reported_names(recipes.drop_last()).push(recipes.last().name@)
    } else {
        reported_names(recipes.drop_last())
    }
}

proof fn lemma_reported_names_take_succ(recipes: Seq<RecipeEntry>, r: int)
    requires
        0 <= r < recipes.len(),
    ensures
        spec_has_links(recipes[r]) ==> reported_names(recipes.take(r + 1)) == reported_names(
            recipes.take(r),
        ).push(recipes[r].name@),
        !spec_has_links(recipes[r]) ==> reported_names(recipes.take(r + 1)) == reported_names(
            recipes.take(r),
        ),
{
    assert(recipes.take(r + 1).drop_last() =~= recipes.take(r));
    assert(recipes.take(r + 1).last() == recipes[r]);
}

/// Every reported name is the name of one of the recipes.
proof fn lemma_reported_names_membership(recipes: Seq<RecipeEntry>, k: int)
    requires
        0 <= k < reported_names(recipes).len(),
    ensures
        exists|i: int|
            0 <= i < recipes.len() && reported_names(recipes)[k] == #[trigger] recipes[i].name@,
    decreases recipes.len(),
{
    if recipes.len() > 0 {
        if spec_has_links(recipes.last()) && k == reported_names(recipes).len() - 1 {
            assert(reported_names(recipes)[k] == recipes[recipes.len() - 1].name@);
        } else {
            lemma_reported_names_membership(recipes.drop_last(), k);
            let i = choose|i: int|
                0 <= i < recipes.drop_last().len() && reported_names(recipes.drop_last())[k]
                    == #[trigger] recipes.drop_last()[i].name@;
            assert(recipes.drop_last()[i] == recipes[i]);
        }
    }
}

/// Of recipes in strictly ascending name order, the reported names are in
/// strictly ascending order as well.
pub proof fn lemma_reported_names_sorted(recipes: Seq<RecipeEntry>)
    requires
        strictly_sorted_names(recipes),
    ensures
        forall|k1: int, k2: int|
            0 <= k1 < k2 < reported_names(recipes).len() ==> lex_lt(
                #[trigger] reported_names(recipes)[k1],
                #[trigger] reported_names(recipes)[k2],
            ),
    decreases recipes.len(),
{
    if recipes.len() > 0 {
        let front = recipes.drop_last();
        assert(strictly_sorted_names(front)) by {
            assert(forall|i: int, j: int|
                0 <= i < j < front.len() ==> front[i] == recipes[i] && front[j] == recipes[j]);
        }
        lemma_reported_names_sorted(front);
        if spec_has_links(recipes.last()) {
            let names = reported_names(recipes);
            assert forall|k1: int, k2: int|
                0 <= k1 < k2 < names.len() implies lex_lt(#[trigger] names[k1], #[trigger] names[k2]) by {
                if k2 < names.len() - 1 {
                    assert(names[k1] == reported_names(front)[k1]);
                    assert(names[k2] == reported_names(front)[k2]);
                } else {
                    assert(names[k2] == recipes.last().name@);
                    assert(names[k1] == reported_names(front)[k1]);
                    lemma_reported_names_membership(front, k1);
                    let i = choose|i: int|
                        0 <= i < front.len() && reported_names(front)[k1]
                            == #[trigger] front[i].name@;
                    assert(front[i] == recipes[i]);
                    assert(lex_lt(recipes[i].name@, recipes[recipes.len() - 1].name@));
                }
            }
        }
    }
}

/// The number of declared link pairs over all the recipes: how many probe
/// observations a complete dry run consumes.
pub open spec fn links_count(recipes: Seq<RecipeEntry>) -> nat
    decreases recipes.len(),
{
    if recipes.len() == 0 {
        0
    } else {
        links_count(recipes.drop_last()) + spec_links(recipes.last()).len()
    }
}

/// The outcomes a non-approved run records for one pair, as a function of
/// the declaration and the observation: the expanded target path and the two
/// existence probes.
pub open spec fn dry_pair_outcomes(
    running_as: PrivilegeLevel,
    name: Seq<char>,
    pair: LinkEntry,
    obs: (Seq<char>, bool, bool),
) -> Seq<OutcomeV> {
    pair_step_outcomes_spec(
        false,
        running_as,
        name,
        pair.source@,
        pair.link.to@,
        obs.0,
        pair.link.is_privileged(),
        obs.1,
        obs.2,
    )
}

/// The outcomes a non-approved run records for the first `n` pairs of one
/// recipe, each pair consuming one observation.
pub open spec fn dry_recipe_outcomes(
    running_as: PrivilegeLevel,
    name: Seq<char>,
    links: Seq<LinkEntry>,
    obs: Seq<(Seq<char>, bool, bool)>,
    n: int,
) -> Seq<OutcomeV>
    decreases n,
{
    if n <= 0 {
        Seq::empty()
    } else {
        dry_recipe_outcomes(running_as, name, links, obs, n - 1) + dry_pair_outcomes(
            running_as,
            name,
            links[n - 1],
            obs[n - 1],
        )
    }
}

/// The whole report of a non-approved run, as a pure function of the
/// recipes and the observations, consumed one per declared pair in
/// declaration order.
pub open spec fn dry_run_report(
    running_as: PrivilegeLevel,
    recipes: Seq<RecipeEntry>,
    obs: Seq<(Seq<char>, bool, bool)>,
) -> Seq<(Seq<char>, Seq<OutcomeV>)>
    decreases recipes.len(),
{
    if recipes.len() == 0 {
        Seq::empty()
    } else {
        let rest = dry_run_report(running_as, recipes.drop_last(), obs);
        if spec_has_links(recipes.last()) {
            rest.push(
                (
                    recipes.last().name@,
                    dry_recipe_outcomes(
                        running_as,
                        recipes.last().name@,
                        spec_links(recipes.last()),
                        obs.skip(links_count(recipes.drop_last()) as int),
                        spec_links(recipes.last()).len() as int,
                    ),
                ),
            )
        } else {
            rest
        }
    }
}

proof fn lemma_links_count_take_succ(recipes: Seq<RecipeEntry>, r: int)
    requires
        0 <= r < recipes.len(),
    ensures
        links_count(recipes.take(r + 1)) == links_count(recipes.take(r)) + spec_links(
            recipes[r],
        ).len(),
{
    assert(recipes.take(r + 1).drop_last() =~= recipes.take(r));
    assert(recipes.take(r + 1).last() == recipes[r]);
}

proof fn lemma_dry_report_take_succ(
    running_as: PrivilegeLevel,
    recipes: Seq<RecipeEntry>,
    obs: Seq<(Seq<char>, bool, bool)>,
    r: int,
)
    requires
        0 <= r < recipes.len(),
    ensures
        spec_has_links(recipes[r]) ==> dry_run_report(running_as, recipes.take(r + 1), obs)
            == dry_run_report(running_as, recipes.take(r), obs).push(
            (
                recipes[r].name@,
                dry_recipe_outcomes(
                    running_as,
                    recipes[r].name@,
                    spec_links(recipes[r]),
                    obs.skip(links_count(recipes.take(r)) as int),
                    spec_links(recipes[r]).len() as int,
                ),
            ),
        ),
        !spec_has_links(recipes[r]) ==> dry_run_report(running_as, recipes.take(r + 1), obs)
            == dry_run_report(running_as, recipes.take(r), obs),
{
    assert(recipes.take(r + 1).drop_last() =~= recipes.take(r));
    assert(recipes.take(r + 1).last() == recipes[r]);
}

/// The outcomes of the first `n` pairs depend only on the first `n`
/// observations.
proof fn lemma_dry_recipe_outcomes_prefix_agree(
    running_as: PrivilegeLevel,
    name: Seq<char>,
    links: Seq<LinkEntry>,
    obs1: Seq<(Seq<char>, bool, bool)>,
    obs2: Seq<(Seq<char>, bool, bool)>,
    n: int,
)
    requires
        n <= obs1.len(),
        n <= obs2.len(),
        forall|i: int| 0 <= i < n ==> obs1[i] == obs2[i],
    ensures
        dry_recipe_outcomes(running_as, name, links, obs1, n) == dry_recipe_outcomes(
            running_as,
            name,
            links,
            obs2,
            n,
        ),
    decreases n,
{
    if n > 0 {
        lemma_dry_recipe_outcomes_prefix_agree(running_as, name, links, obs1, obs2, n - 1);
    }
}

/// The report depends only on the observations the declared pairs consume.
proof fn lemma_dry_report_prefix_agree(
    running_as: PrivilegeLevel,
    recipes: Seq<RecipeEntry>,
    obs1: Seq<(Seq<char>, bool, bool)>,
    obs2: Seq<(Seq<char>, bool, bool)>,
)
    requires
        links_count(recipes) <= obs1.len(),
        links_count(recipes) <= obs2.len(),
        forall|i: int| 0 <= i < links_count(recipes) ==> obs1[i] == obs2[i],
    ensures
        dry_run_report(running_as, recipes, obs1) == dry_run_report(running_as, recipes, obs2),
    decreases recipes.len(),
{
    if recipes.len() > 0 {
        let front = recipes.drop_last();
        let c = links_count(front) as int;
        let n = spec_links(recipes.last()).len() as int;
        lemma_dry_report_prefix_agree(running_as, front, obs1, obs2);
        if spec_has_links(recipes.last()) {
            assert forall|i: int| 0 <= i < n implies obs1.skip(c)[i] == obs2.skip(c)[i] by {
                assert(obs1.skip(c)[i] == obs1[c + i]);
                assert(obs2.skip(c)[i] == obs2[c + i]);
            }
            lemma_dry_recipe_outcomes_prefix_agree(
                running_as,
                recipes.last().name@,
                spec_links(recipes.last()),
                obs1.skip(c),
                obs2.skip(c),
                n,
            );
        }
    }
}

/// What the caller is asked to do next.
pub enum Action {
    /// Probe whether the pair's source path and target path exist on the
    /// filesystem.
    Probe { source_path: String, to_path: String },
    /// Create a symlink at `to_path` pointing at `source_path`; for a
    /// privileged link, then transfer ownership of the new link to the real
    /// invoking user.
    Create { source_path: String, to_path: String, privileged: bool },
    /// The run is complete.
    Done,
}

/// What the caller observed while carrying out the requested action.
pub enum Event {
    /// Both existence probes of a [`Action::Probe`] request.
    Probed { source_exists: bool, target_exists: bool },
    /// A [`Action::Create`] request was carried out in full.
    Created,
    /// A [`Action::Create`] request failed, with the underlying error text.
    CreateFailed { error: String },
}

/// Which kind of step the session awaits.
pub enum Phase {
    /// The current pair's paths await their existence probe.
    Probing,
    /// The current pair's mutation awaits its result.
    Creating,
    /// All recipes are processed.
    Finished,
}

/// Applies all processors on a collection of recipes.
pub struct Engine {}

/// One engine run in progress: the recipes under processing, the position of
/// the current pair, and the outcomes recorded so far.
pub struct Session {
    /// Whether this run may mutate the filesystem.
    pub approve: bool,
    /// The process's privilege level, sampled once by the caller.
    pub running_as: PrivilegeLevel,
    /// The root all relative source paths are resolved against.
    pub recipe_root: String,
    /// The recipes, in strictly ascending name order.
    pub recipes: Vec<RecipeEntry>,
    /// Index of the recipe under processing.
    pub cur_recipe: usize,
    /// Index of the pair under processing within the current recipe.
    pub cur_link: usize,
    /// The resolved paths of the current pair.
    pub paths: PairPaths,
    /// Whether the pending mutation is for a privileged link.
    pub pending_privileged: bool,
    /// Which kind of step the session awaits.
    pub phase: Phase,
    /// The outcomes recorded so far, keyed by recipe name.
    pub outcomes: Outcomes,
    /// History of the observations handed to this run, one per probed pair:
    /// the expanded target path and the two existence probes.
    pub probes: Ghost<Seq<(Seq<char>, bool, bool)>>,
}

impl Session {
    /// The names the outcomes recorded so far are keyed by, in order.
    pub open spec fn names_recorded(self) -> Seq<Seq<char>> {
        Seq::new(self.outcomes@.len(), |i: int| self.outcomes@[i].0)
    }

    /// The recipe under processing.
    pub open spec fn cur_entry(self) -> RecipeEntry {
        self.recipes@[self.cur_recipe as int]
    }

    /// The link section of the recipe under processing.
    pub open spec fn cur_links(self) -> Seq<LinkEntry> {
        spec_links(self.cur_entry())
    }

    /// The pair under processing.
    pub open spec fn cur_pair(self) -> LinkEntry {
        self.cur_links()[self.cur_link as int]
    }

    /// The names the outcomes must be keyed by at the current position: one
    /// per fully processed recipe with a non-empty link section, plus the
    /// current recipe's once its first pair has yielded an outcome.
    pub open spec fn expected_names(self) -> Seq<Seq<char>> {
        let done = reported_names(self.recipes@.take(self.cur_recipe as int));
        if self.cur_link > 0 {
            done.push(self.cur_entry().name@)
        } else {
            done
        }
    }

    /// In a non-approved run the outcomes recorded so far are exactly the
    /// dry-run report of the processed prefix, as a pure function of the
    /// recipes and the observation history: the fully processed recipes'
    /// entries, plus the current recipe's partial entry once its first pair
    /// has been observed.
    pub open spec fn dry_consistent(self) -> bool {
        let front = self.recipes@.take(self.cur_recipe as int);
        let c = links_count(front) as int;
        &&& self.probes@.len() == c + self.cur_link
        &&& self.outcomes@ =~~= dry_run_report(self.running_as, front, self.probes@) + (
        if self.cur_link > 0 {
            seq![
                (
                    self.cur_entry().name@,
                    dry_recipe_outcomes(
                        self.running_as,
                        self.cur_entry().name@,
                        self.cur_links(),
                        self.probes@.skip(c),
                        self.cur_link as int,
                    ),
                ),
            ]
        } else {
            Seq::empty()
        })
    }

    /// Well-formedness of a session, established by [`Engine::start`] and
    /// preserved by every step:
    /// * the recipes are in strictly ascending name order and the position
    ///   indices are in bounds;
    /// * outside the finished phase the current pair exists and its paths
    ///   are the resolved ones;
    /// * a non-approved run is never in the creating phase — a dry run never
    ///   mutates the filesystem — and its recorded outcomes are the dry-run
    ///   report of the processed prefix;
    /// * a mutation is only ever pending when the run is approved and the
    ///   privilege elevation policy proceeds;
    /// * the recorded outcome keys are exactly the expected names, in
    ///   processing order.
    pub open spec fn wf(self) -> bool {
        &&& strictly_sorted_names(self.recipes@)
        &&& self.cur_recipe <= self.recipes@.len()
        &&& (self.phase is Finished <==> self.cur_recipe == self.recipes@.len())
        &&& (self.phase is Finished ==> self.cur_link == 0)
        &&& (!(self.phase is Finished) ==> self.cur_entry().recipe.link is Some && (
        self.cur_link as int) < self.cur_links().len())
        &&& (!(self.phase is Finished) ==> self.paths.source_path@ == joined_path(
            self.recipe_root@,
            self.cur_pair().source@,
        ) && (!has_tilde_prefix(self.cur_pair().link.to@) ==> self.paths.to_path@
            == self.cur_pair().link.to@))
        &&& (!self.approve ==> !(self.phase is Creating))
        &&& (self.phase is Creating ==> pending_create_spec(
            self.approve,
            self.running_as,
            self.pending_privileged,
        ))
        &&& (!self.approve ==> self.dry_consistent())
        &&& self.names_recorded() =~= self.expected_names()
    }

    /// Move to the next pair that exists, skipping recipes without one, and
    /// set the phase accordingly.
    fn seek(&mut self)
        requires
            strictly_sorted_names(old(self).recipes@),
            old(self).cur_recipe <= old(self).recipes@.len(),
            old(self).cur_link > 0 ==> (old(self).cur_recipe as int) < old(self).recipes@.len()
                && old(self).cur_entry().recipe.link is Some && old(self).cur_link as int <= old(
                self,
            ).cur_links().len(),
            old(self).names_recorded() =~= old(self).expected_names(),
            !old(self).approve ==> old(self).dry_consistent(),
        ensures
            final(self).wf(),
            final(self).phase is Probing || final(self).phase is Finished,
            final(self).approve == old(self).approve,
            final(self).running_as == old(self).running_as,
            final(self).recipes == old(self).recipes,
            final(self).recipe_root == old(self).recipe_root,
            final(self).outcomes == old(self).outcomes,
            final(self).probes == old(self).probes,
    {
        while self.cur_recipe < self.recipes.len()
            invariant
                strictly_sorted_names(self.recipes@),
                self.cur_recipe <= self.recipes@.len(),
                self.cur_link > 0 ==> (self.cur_recipe as int) < self.recipes@.len()
                    && self.cur_entry().recipe.link is Some && self.cur_link as int
                    <= self.cur_links().len(),
                self.names_recorded() =~= self.expected_names(),
                !self.approve ==> self.dry_consistent(),
                self.approve == old(self).approve,
                self.running_as == old(self).running_as,
                self.recipes == old(self).recipes,
                self.recipe_root == old(self).recipe_root,
                self.outcomes == old(self).outcomes,
                self.probes == old(self).probes,
            decreases self.recipes@.len() - self.cur_recipe,
        {
            let found = match &self.recipes[self.cur_recipe].recipe.link {
                Some(ls) => self.cur_link < ls.len(),
                None => false,
            };
            if found {
                let pair_source;
                let pair_to;
                match &self.recipes[self.cur_recipe].recipe.link {
                    Some(ls) => {
                        let pair = &ls[self.cur_link];
                        pair_source = crate::text::join_path(
                            self.recipe_root.as_str(),
                            pair.source.as_str(),
                        );
                        pair_to = crate::text::expand_tilde(pair.link.to.as_str());
                    },
                    None => {
                        pair_source = unreached();
                        pair_to = unreached();
                    },
                }
                self.paths = PairPaths { source_path: pair_source, to_path: pair_to };
                self.phase = Phase::Probing;
                return;
            }
            proof {
                lemma_reported_names_take_succ(self.recipes@, self.cur_recipe as int);
                if self.cur_link > 0 {
                    assert(spec_has_links(self.cur_entry()));
                }
                if !self.approve {
                    let r = self.cur_recipe as int;
                    let front = self.recipes@.take(r);
                    let c = links_count(front) as int;
                    lemma_links_count_take_succ(self.recipes@, r);
                    lemma_dry_report_take_succ(self.running_as, self.recipes@, self.probes@, r);
                    if self.cur_link > 0 {
                        assert(self.cur_link as int == self.cur_links().len());
                        assert(self.cur_links() == spec_links(self.recipes@[r]));
                        assert(dry_run_report(self.running_as, self.recipes@.take(r + 1), self.probes@)
                            =~~= dry_run_report(self.running_as, front, self.probes@).push(
                            (
                                self.cur_entry().name@,
                                dry_recipe_outcomes(
                                    self.running_as,
                                    self.cur_entry().name@,
                                    self.cur_links(),
                                    self.probes@.skip(c),
                                    self.cur_link as int,
                                ),
                            ),
                        ));
                        assert(self.outcomes@ =~~= dry_run_report(
                            self.running_as,
                            self.recipes@.take(r + 1),
                            self.probes@,
                        ));
                    } else {
                        assert(!spec_has_links(self.cur_entry()));
                        assert(spec_links(self.recipes@[r]).len() == 0);
                        assert(self.outcomes@ =~~= dry_run_report(
                            self.running_as,
                            self.recipes@.take(r + 1),
                            self.probes@,
                        ));
                    }
                }
            }
            self.cur_recipe = self.cur_recipe + 1;
            self.cur_link = 0;
        }
        proof {
            assert(self.recipes@.take(self.cur_recipe as int) =~= self.recipes@);
        }
        self.phase = Phase::Finished;
    }

    /// The action the caller shall carry out next. A non-approved run is
    /// never asked to create anything.
    pub fn next_action(&self) -> (a: Action)
        requires
            self.wf(),
        ensures
            a is Done <==> self.phase is Finished,
            self.phase is Probing ==> (a matches Action::Probe { source_path, to_path }
                && source_path@ == self.paths.source_path@ && to_path@ == self.paths.to_path@),
            self.phase is Creating ==> (a matches Action::Create {
                source_path,
                to_path,
                privileged,
            } && source_path@ == self.paths.source_path@ && to_path@ == self.paths.to_path@
                && privileged == self.pending_privileged),
            a matches Action::Create { privileged, .. } ==> (self.approve && crate::policy::elevation_policy_spec(
                self.running_as,
                privileged,
            ) is Proceed),
            !self.approve ==> !(a is Create),
    {
        match self.phase {
            Phase::Probing => Action::Probe {
                source_path: self.paths.source_path.clone(),
                to_path: self.paths.to_path.clone(),
            },
            Phase::Creating => Action::Create {
                source_path: self.paths.source_path.clone(),
                to_path: self.paths.to_path.clone(),
                privileged: self.pending_privileged,
            },
            Phase::Finished => Action::Done,
        }
    }

    /// Whether the run is complete.
    pub fn is_finished(&self) -> (b: bool)
        ensures
            b == (self.phase is Finished),
    {
        match self.phase {
            Phase::Finished => true,
            _ => false,
        }
    }

    /// Hand the aggregated outcomes of a finished run to the presentation
    /// layer.
    pub fn into_outcomes(self) -> (o: Outcomes)
        ensures
            o == self.outcomes,
    {
        self.outcomes
    }

    /// Advance the run by one observed event.
    ///
    /// In the probing phase, the event carries the two existence probes; the
    /// step records one outcome per failing precondition check, or the
    /// settled outcome, or — in an approved run whose privilege check
    /// proceeds — moves to the creating phase with the mutation pending. In
    /// the creating phase, the event carries the mutation result and the
    /// step records the pair's one terminal outcome. Either way the run then
    /// moves on to the next pair: one pair's failure never aborts the rest.
    pub fn step(&mut self, event: Event)
        requires
            old(self).wf(),
            !(old(self).phase is Finished),
            old(self).phase is Probing ==> event is Probed,
            old(self).phase is Creating ==> event is Created || event is CreateFailed,
        ensures
            final(self).wf(),
            final(self).approve == old(self).approve,
            final(self).running_as == old(self).running_as,
            final(self).recipes == old(self).recipes,
            final(self).recipe_root == old(self).recipe_root,
            old(self).phase is Probing ==> (event matches Event::Probed {
                source_exists,
                target_exists,
            } ==> ({
                let outs = pair_step_outcomes_spec(
                    old(self).approve,
                    old(self).running_as,
                    old(self).cur_entry().name@,
                    old(self).cur_pair().source@,
                    old(self).cur_pair().link.to@,
                    old(self).paths.to_path@,
                    old(self).cur_pair().link.is_privileged(),
                    source_exists,
                    target_exists,
                );
                &&& (outs.len() == 0 <==> final(self).phase is Creating)
                &&& (final(self).phase is Creating ==> final(self).outcomes == old(self).outcomes
                    && final(self).cur_recipe == old(self).cur_recipe && final(self).cur_link == old(
                    self,
                ).cur_link && final(self).paths == old(self).paths && final(self).pending_privileged == old(
                    self,
                ).cur_pair().link.is_privileged() && pending_create_spec(
                    old(self).approve,
                    old(self).running_as,
                    old(self).cur_pair().link.is_privileged(),
                ))
                &&& (outs.len() > 0 ==> adds(
                    old(self).outcomes@,
                    final(self).outcomes@,
                    old(self).cur_entry().name@,
                    outs,
                ) && !(final(self).phase is Creating))
                &&& final(self).probes@ == old(self).probes@.push(
                    (old(self).paths.to_path@, source_exists, target_exists),
                )
            })),
            old(self).phase is Creating ==> final(self).probes == old(self).probes,
            old(self).phase is Creating && event is Created ==> adds(
                old(self).outcomes@,
                final(self).outcomes@,
                old(self).cur_entry().name@,
                seq![
                    created_outcome_spec(
                        old(self).cur_entry().name@,
                        old(self).cur_pair().source@,
                        old(self).paths.to_path@,
                    ),
                ],
            ) && !(final(self).phase is Creating),
            old(self).phase is Creating ==> (event matches Event::CreateFailed { error } ==> (adds(
                old(self).outcomes@,
                final(self).outcomes@,
                old(self).cur_entry().name@,
                seq![
                    create_failed_outcome_spec(
                        old(self).cur_entry().name@,
                        old(self).cur_pair().source@,
                        old(self).paths.to_path@,
                        error@,
                    ),
                ],
            ) && !(final(self).phase is Creating))),
    {
        let processor = LinkProcessor::new();
        match self.phase {
            Phase::Probing => {
                match event {
                    Event::Probed { source_exists, target_exists } => {
                        let ghost obs = (self.paths.to_path@, source_exists, target_exists);
                        let ghost seen = self.probes@;
                        let (recorded, request) = match &self.recipes[self.cur_recipe].recipe.link {
                            Some(ls) => {
                                let pair = &ls[self.cur_link];
                                processor.link(
                                    self.approve,
                                    self.running_as,
                                    self.recipes[self.cur_recipe].name.as_str(),
                                    pair.source.as_str(),
                                    &pair.link,
                                    &self.paths,
                                    source_exists,
                                    target_exists,
                                )
                            },
                            None => unreached(),
                        };
                        self.probes = Ghost(seen.push(obs));
                        match request {
                            Some(req) => {
                                self.pending_privileged = req.privileged;
                                self.phase = Phase::Creating;
                            },
                            None => {
                                proof {
                                    crate::processor::lemma_every_pair_yields_an_outcome(
                                        self.approve,
                                        self.running_as,
                                        self.cur_entry().name@,
                                        self.cur_pair().source@,
                                        self.cur_pair().link.to@,
                                        self.paths.to_path@,
                                        self.cur_pair().link.is_privileged(),
                                        source_exists,
                                        target_exists,
                                    );
                                    if !self.approve {
                                        let r = self.cur_recipe as int;
                                        let front = self.recipes@.take(r);
                                        let c = links_count(front) as int;
                                        lemma_dry_report_prefix_agree(
                                            self.running_as,
                                            front,
                                            seen,
                                            self.probes@,
                                        );
                                        if self.cur_link > 0 {
                                            assert forall|i: int|
                                                0 <= i < self.cur_link as int implies seen.skip(
                                                c,
                                            )[i] == self.probes@.skip(c)[i] by {
                                                assert(seen.skip(c)[i] == seen[c + i]);
                                                assert(self.probes@.skip(c)[i] == self.probes@[c
                                                    + i]);
                                            }
                                            lemma_dry_recipe_outcomes_prefix_agree(
                                                self.running_as,
                                                self.cur_entry().name@,
                                                self.cur_links(),
                                                seen.skip(c),
                                                self.probes@.skip(c),
                                                self.cur_link as int,
                                            );
                                        }
                                        assert(self.probes@.last() == obs);
                                        assert(recorded.deep_view() =~~= dry_pair_outcomes(
                                            self.running_as,
                                            self.cur_entry().name@,
                                            self.cur_pair(),
                                            self.probes@.last(),
                                        ));
                                    }
                                }
                                self.record_and_advance(recorded);
                            },
                        }
                    },
                    _ => unreached(),
                }
            },
            Phase::Creating => {
                let result = match event {
                    Event::Created => MutationResult::Created,
                    Event::CreateFailed { error } => MutationResult::Failed { error },
                    Event::Probed { .. } => unreached(),
                };
                let outcome = match &self.recipes[self.cur_recipe].recipe.link {
                    Some(ls) => {
                        let pair = &ls[self.cur_link];
                        processor.complete(
                            self.recipes[self.cur_recipe].name.as_str(),
                            pair.source.as_str(),
                            self.paths.to_path.as_str(),
                            result,
                        )
                    },
                    None => unreached(),
                };
                let mut recorded = Vec::new();
                recorded.push(outcome);
                self.record_and_advance(recorded);
            },
            Phase::Finished => unreached(),
        }
    }

    /// In a well-formed session, no name reported for the fully processed
    /// recipes is the current recipe's name: the current recipe comes
    /// strictly after all of them.
    proof fn lemma_done_names_differ(self)
        requires
            strictly_sorted_names(self.recipes@),
            (self.cur_recipe as int) < self.recipes@.len(),
        ensures
            forall|i: int|
                0 <= i < reported_names(self.recipes@.take(self.cur_recipe as int)).len()
                    ==> #[trigger] reported_names(self.recipes@.take(self.cur_recipe as int))[i]
                    != self.cur_entry().name@,
    {
        let front = self.recipes@.take(self.cur_recipe as int);
        let done = reported_names(front);
        assert forall|i: int| 0 <= i < done.len() implies #[trigger] done[i]
            != self.cur_entry().name@ by {
            lemma_reported_names_membership(front, i);
            let j = choose|j: int| 0 <= j < front.len() && done[i] == #[trigger] front[j].name@;
            assert(front[j] == self.recipes@[j]);
            assert(lex_lt(self.recipes@[j].name@, self.cur_entry().name@));
            if self.recipes@[j].name@ == self.cur_entry().name@ {
                lemma_lex_lt_irreflexive(self.cur_entry().name@);
            }
        }
    }

    /// Record a non-empty batch of outcomes for the current pair under the
    /// current recipe's name and move on to the next pair.
    fn record_and_advance(&mut self, recorded: Vec<crate::outcome::Outcome>)
        requires
            strictly_sorted_names(old(self).recipes@),
            (old(self).cur_recipe as int) < old(self).recipes@.len(),
            old(self).cur_entry().recipe.link is Some,
            (old(self).cur_link as int) < old(self).cur_links().len(),
            old(self).names_recorded() =~= old(self).expected_names(),
            recorded@.len() > 0,
            !old(self).approve ==> !(old(self).phase is Creating),
            !old(self).approve ==> ({
                let front = old(self).recipes@.take(old(self).cur_recipe as int);
                let c = links_count(front) as int;
                &&& old(self).probes@.len() == c + old(self).cur_link + 1
                &&& old(self).outcomes@ =~~= dry_run_report(
                    old(self).running_as,
                    front,
                    old(self).probes@,
                ) + (if old(self).cur_link > 0 {
                    seq![
                        (
                            old(self).cur_entry().name@,
                            dry_recipe_outcomes(
                                old(self).running_as,
                                old(self).cur_entry().name@,
                                old(self).cur_links(),
                                old(self).probes@.skip(c),
                                old(self).cur_link as int,
                            ),
                        ),
                    ]
                } else {
                    Seq::empty()
                })
                &&& recorded.deep_view() =~~= dry_pair_outcomes(
                    old(self).running_as,
                    old(self).cur_entry().name@,
                    old(self).cur_pair(),
                    old(self).probes@.last(),
                )
            }),
        ensures
            final(self).wf(),
            final(self).phase is Probing || final(self).phase is Finished,
            final(self).approve == old(self).approve,
            final(self).running_as == old(self).running_as,
            final(self).recipes == old(self).recipes,
            final(self).recipe_root == old(self).recipe_root,
            adds(
                old(self).outcomes@,
                final(self).outcomes@,
                old(self).cur_entry().name@,
                recorded.deep_view(),
            ),
            final(self).probes == old(self).probes,
    {
        proof {
            let name = old(self).cur_entry().name@;
            let done = reported_names(old(self).recipes@.take(old(self).cur_recipe as int));
            old(self).lemma_done_names_differ();
            if old(self).cur_link > 0 {
                assert(old(self).names_recorded().len() == done.len() + 1);
                assert(old(self).names_recorded().last() == name);
            }
            assert forall|i: int| 0 <= i < old(self).outcomes@.len() - 1 implies #[trigger] old(
                self,
            ).outcomes@[i].0 != name by {
                assert(old(self).outcomes@[i].0 == old(self).names_recorded()[i]);
                assert(old(self).names_recorded()[i] == done[i]);
            }
        }
        self.outcomes.add(&self.recipes[self.cur_recipe].name, recorded);
        proof {
            let name = old(self).cur_entry().name@;
            let done = reported_names(old(self).recipes@.take(old(self).cur_recipe as int));
            if old(self).cur_link > 0 {
                assert(old(self).outcomes@.len() > 0 && old(self).outcomes@.last().0 == name);
                assert(self.outcomes@ == old(self).outcomes@.drop_last().push(
                    (name, old(self).outcomes@.last().1 + recorded.deep_view()),
                ));
                assert(self.names_recorded() =~= done.push(name));
            } else {
                if old(self).outcomes@.len() > 0 {
                    assert(old(self).outcomes@.last().0 == old(self).names_recorded().last());
                    assert(old(self).names_recorded().last() == done.last());
                    assert(old(self).outcomes@.last().0 != name);
                }
                assert(self.outcomes@ == old(self).outcomes@.push((name, recorded.deep_view())));
                assert(self.names_recorded() =~= done.push(name));
            }
        }
        proof {
            if !self.approve {
                let r = self.cur_recipe as int;
                let front = self.recipes@.take(r);
                let c = links_count(front) as int;
                let name = old(self).cur_entry().name@;
                let links = old(self).cur_links();
                let l = old(self).cur_link as int;
                let obs = self.probes@;
                assert(obs.skip(c)[l] == obs[c + l]);
                assert(obs[c + l] == obs.last());
                assert(dry_recipe_outcomes(self.running_as, name, links, obs.skip(c), l + 1)
                    =~~= dry_recipe_outcomes(self.running_as, name, links, obs.skip(c), l)
                    + recorded.deep_view());
                let report = dry_run_report(self.running_as, front, obs);
                if l > 0 {
                    assert(old(self).outcomes@ =~~= report.push(
                        (
                            name,
                            dry_recipe_outcomes(self.running_as, name, links, obs.skip(c), l),
                        ),
                    ));
                    assert(self.outcomes@ =~~= report.push(
                        (
                            name,
                            dry_recipe_outcomes(self.running_as, name, links, obs.skip(c), l + 1),
                        ),
                    ));
                } else {
                    assert(old(self).outcomes@ =~~= report);
                    assert(dry_recipe_outcomes(self.running_as, name, links, obs.skip(c), 1)
                        =~~= recorded.deep_view());
                    assert(self.outcomes@ =~~= report.push(
                        (
                            name,
                            dry_recipe_outcomes(self.running_as, name, links, obs.skip(c), l + 1),
                        ),
                    ));
                }
            }
        }
        let links_len = match &self.recipes[self.cur_recipe].recipe.link {
            Some(ls) => ls.len(),
            None => unreached(),
        };
        assert(self.cur_link < links_len);
        self.cur_link = self.cur_link + 1;
        self.seek();
    }
}

impl Engine {
    /// Create a new [`Engine`].
    pub fn new() -> (e: Engine) {
        Engine {}
    }

    /// Begin a run over the recipes, handed over in strictly ascending name
    /// order, against the given recipe root.
    pub fn start(
        &self,
        approve: bool,
        running_as: PrivilegeLevel,
        recipes: Vec<RecipeEntry>,
        recipe_root: String,
    ) -> (s: Session)
        requires
            strictly_sorted_names(recipes@),
        ensures
            s.wf(),
            s.phase is Probing || s.phase is Finished,
            s.approve == approve,
            s.running_as == running_as,
            s.recipes == recipes,
            s.recipe_root == recipe_root,
            s.outcomes@ =~= Seq::<(Seq<char>, Seq<OutcomeV>)>::empty(),
            s.probes@ =~= Seq::<(Seq<char>, bool, bool)>::empty(),
    {
        let mut s = Session {
            approve,
            running_as,
            recipe_root,
            recipes,
            cur_recipe: 0,
            cur_link: 0,
            paths: PairPaths { source_path: String::new(), to_path: String::new() },
            pending_privileged: false,
            phase: Phase::Finished,
            outcomes: Outcomes::new(),
            probes: Ghost(Seq::empty()),
        };
        proof {
            assert(s.recipes@.take(0) =~= Seq::<RecipeEntry>::empty());
            assert(s.names_recorded() =~= s.expected_names());
            if !approve {
                assert(s.outcomes@ =~~= dry_run_report(running_as, s.recipes@.take(0), s.probes@)
                    + Seq::<(Seq<char>, Seq<OutcomeV>)>::empty());
            }
        }
        s.seek();
        s
    }
}

/// Deterministic ordering: a finished run reports outcomes exactly for the
/// recipes with a non-empty link section, keyed in recipe order — and, the
/// recipes being sorted, in strictly ascending name order. Together with the
/// step contracts, which pin every recorded batch to the pair under
/// processing, the iteration order of the report is a function of the recipe
/// collection alone.
pub proof fn lemma_finished_session_reports_in_order(s: Session)
    requires
        s.wf(),
        s.phase is Finished,
    ensures
        s.names_recorded() =~= reported_names(s.recipes@),
        forall|k1: int, k2: int|
            0 <= k1 < k2 < s.names_recorded().len() ==> lex_lt(
                #[trigger] s.names_recorded()[k1],
                #[trigger] s.names_recorded()[k2],
            ),
{
    assert(s.recipes@.take(s.cur_recipe as int) =~= s.recipes@);
    lemma_reported_names_sorted(s.recipes@);
    assert forall|k1: int, k2: int|
        0 <= k1 < k2 < s.names_recorded().len() implies lex_lt(
        #[trigger] s.names_recorded()[k1],
        #[trigger] s.names_recorded()[k2],
    ) by {
        assert(s.names_recorded()[k1] == reported_names(s.recipes@)[k1]);
        assert(s.names_recorded()[k2] == reported_names(s.recipes@)[k2]);
    }
}

/// A dry run never mutates: in a non-approved session no reachable state is
/// in the creating phase, so the caller is never asked to create anything,
/// and the filesystem stays unchanged.
pub proof fn lemma_dry_run_never_mutates(s: Session)
    requires
        s.wf(),
        !s.approve,
    ensures
        !(s.phase is Creating),
{
}

/// Dry-run idempotence: the report of a finished non-approved run is a pure
/// function of the recipes and the observation history — the expanded
/// target path and the two existence probes of each pair. Two non-approved
/// runs over the same recipes that observe the same filesystem and
/// environment therefore yield identical outcomes; and, the filesystem
/// staying unmutated (see [`lemma_dry_run_never_mutates`]), repeating a dry
/// run cannot change what it observes.
pub proof fn lemma_dry_run_report_is_a_function_of_observations(s: Session)
    requires
        s.wf(),
        s.phase is Finished,
        !s.approve,
    ensures
        s.outcomes@ =~~= dry_run_report(s.running_as, s.recipes@, s.probes@),
{
    assert(s.recipes@.take(s.cur_recipe as int) =~= s.recipes@);
}

} // verus!
