//! The link processor: per-link resolution, precondition validation,
//! privilege-policy consultation, and outcome construction.
//!
//! The processor itself never touches the filesystem. For each pair it
//! decides from the observed facts (does the source exist, does the target
//! exist) which outcomes to record and whether a mutation is to be carried
//! out; the caller performs the mutation and hands the result back to
//! [`LinkProcessor::complete`].

use vstd::prelude::*;

use crate::model::Link;
use crate::model::PolicyDecision;
use crate::model::PrivilegeLevel;
use crate::outcome::decide;
use crate::outcome::decide_spec;
use crate::outcome::Outcome;
use crate::outcome::OutcomeV;
use crate::policy::elevation_policy;
use crate::policy::elevation_policy_spec;
use crate::text::block_id;
use crate::text::block_id_spec;
use crate::text::collision_message;
use crate::text::collision_message_spec;
use crate::text::elevated_not_wanted_message;
use crate::text::elevated_not_wanted_message_spec;
use crate::text::expand_tilde;
use crate::text::has_tilde_prefix;
use crate::text::intent_message;
use crate::text::intent_message_spec;
use crate::text::join_path;
use crate::text::joined_path;
use crate::text::mutation_failed_message;
use crate::text::mutation_failed_message_spec;
use crate::text::requires_elevation_message;
use crate::text::requires_elevation_message_spec;
use crate::text::success_message;
use crate::text::success_message_spec;

verus! {

/// The resolved paths of one declared link pair: the source joined onto the
/// recipe root, and the target with its tilde segment expanded.
pub struct PairPaths {
    /// Where the linked file or directory lives, under the recipe root.
    pub source_path: String,
    /// Where the symlink is to be created.
    pub to_path: String,
}

/// A filesystem mutation the processor asks its caller to perform: create a
/// symlink at `to_path` pointing to `source_path`, and, for a privileged
/// link, transfer ownership of the new link to the real invoking user.
pub struct CreateRequest {
    /// What the symlink shall point at.
    pub source_path: String,
    /// Where the symlink shall be created.
    pub to_path: String,
    /// Whether ownership of the link must be transferred afterwards.
    pub privileged: bool,
}

/// What the caller observed when carrying out a [`CreateRequest`].
pub enum MutationResult {
    /// The symlink was created and, for a privileged link, its ownership was
    /// transferred.
    Created,
    /// The symlink creation or the ownership transfer failed, with the
    /// underlying error text.
    Failed { error: String },
}

/// The would-be outcome of a pair whose source path does not exist: a
/// failure describing the intended link.
pub open spec fn missing_source_outcome_spec(
    name: Seq<char>,
    source: Seq<char>,
    to_decl: Seq<char>,
) -> OutcomeV {
    OutcomeV::Failure {
        block_id: block_id_spec(name, source),
        message: intent_message_spec(source, to_decl),
    }
}

/// The would-be outcome of a pair whose target path already exists: a
/// failure noting the collision.
pub open spec fn collision_outcome_spec(name: Seq<char>, source: Seq<char>) -> OutcomeV {
    OutcomeV::Failure {
        block_id: block_id_spec(name, source),
        message: collision_message_spec(source),
    }
}

/// The outcomes of the two independent precondition checks of one pair; both
/// may fire, and each failing check yields one outcome.
pub open spec fn precondition_outcomes_spec(
    approve: bool,
    name: Seq<char>,
    source: Seq<char>,
    to_decl: Seq<char>,
    source_exists: bool,
    target_exists: bool,
) -> Seq<OutcomeV> {
    (if !source_exists {
        seq![decide_spec(approve, missing_source_outcome_spec(name, source, to_decl))]
    } else {
        Seq::empty()
    }) + (if target_exists {
        seq![decide_spec(approve, collision_outcome_spec(name, source))]
    } else {
        Seq::empty()
    })
}

/// Whether a pair's mutation is still to be carried out: only an approved
/// run whose privilege check proceeds ever reaches the filesystem.
pub open spec fn pending_create_spec(
    approve: bool,
    running_as: PrivilegeLevel,
    privileged: bool,
) -> bool {
    approve && elevation_policy_spec(running_as, privileged) is Proceed
}

/// The outcome of a pair whose preconditions passed and which awaits no
/// mutation: the would-be success or privilege failure, run through the
/// dry-run duality rule.
pub open spec fn settled_outcome_spec(
    approve: bool,
    running_as: PrivilegeLevel,
    name: Seq<char>,
    source: Seq<char>,
    to_path: Seq<char>,
    privileged: bool,
) -> OutcomeV {
    match elevation_policy_spec(running_as, privileged) {
        PolicyDecision::Proceed => decide_spec(
            approve,
            OutcomeV::Success {
                block_id: block_id_spec(name, source),
                message: success_message_spec(source, to_path),
            },
        ),
        PolicyDecision::RequiresElevation => decide_spec(
            approve,
            OutcomeV::Failure {
                block_id: block_id_spec(name, source),
                message: requires_elevation_message_spec(),
            },
        ),
        PolicyDecision::ElevatedButNotWanted => decide_spec(
            approve,
            OutcomeV::Failure {
                block_id: block_id_spec(name, source),
                message: elevated_not_wanted_message_spec(),
            },
        ),
    }
}

/// All outcomes [`LinkProcessor::link`] records for one pair: the outcomes
/// of the failing precondition checks, or, with both checks clean, the
/// settled outcome — unless a mutation is pending, in which case the pair's
/// one outcome comes from [`LinkProcessor::complete`].
pub open spec fn pair_step_outcomes_spec(
    approve: bool,
    running_as: PrivilegeLevel,
    name: Seq<char>,
    source: Seq<char>,
    to_decl: Seq<char>,
    to_path: Seq<char>,
    privileged: bool,
    source_exists: bool,
    target_exists: bool,
) -> Seq<OutcomeV> {
    if source_exists && !target_exists {
        if pending_create_spec(approve, running_as, privileged) {
            Seq::empty()
        } else {
            seq![settled_outcome_spec(approve, running_as, name, source, to_path, privileged)]
        }
    } else {
        precondition_outcomes_spec(approve, name, source, to_decl, source_exists, target_exists)
    }
}

/// The outcome of a successfully carried out mutation.
pub open spec fn created_outcome_spec(
    name: Seq<char>,
    source: Seq<char>,
    to_path: Seq<char>,
) -> OutcomeV {
    OutcomeV::Success {
        block_id: block_id_spec(name, source),
        message: success_message_spec(source, to_path),
    }
}

/// The outcome of a failed mutation, with the underlying error text
/// interpolated into the message.
pub open spec fn create_failed_outcome_spec(
    name: Seq<char>,
    source: Seq<char>,
    to_path: Seq<char>,
    error: Seq<char>,
) -> OutcomeV {
    OutcomeV::Failure {
        block_id: block_id_spec(name, source),
        message: mutation_failed_message_spec(source, to_path, error),
    }
}

/// Processes [`Link`]s when applying a recipe.
pub struct LinkProcessor;

impl LinkProcessor {
    /// Create a new [`LinkProcessor`].
    pub fn new() -> (p: LinkProcessor) {
        LinkProcessor
    }

    /// Resolve the paths of one pair: join the source onto the recipe root,
    /// and expand a leading tilde segment of the declared target.
    pub fn prepare(&self, recipe_root: &str, source: &str, link: &Link) -> (p: PairPaths)
        ensures
            p.source_path@ == joined_path(recipe_root@, source@),
            !has_tilde_prefix(link.to@) ==> p.to_path@ == link.to@,
    {
        PairPaths {
            source_path: join_path(recipe_root, source),
            to_path: expand_tilde(link.to.as_str()),
        }
    }

    /// Validate and decide one pair, given the observed facts.
    ///
    /// Records one outcome per failing precondition check; with both checks
    /// clean, consults the privilege elevation policy and either records the
    /// settled outcome or — in an approved run whose check proceeds — asks
    /// the caller to carry out the mutation. A pair that fails a
    /// precondition, or whose privilege check does not proceed, never
    /// reaches the filesystem-mutation step.
    pub fn link(
        &self,
        approve: bool,
        running_as: PrivilegeLevel,
        recipe_name: &str,
        source: &str,
        link: &Link,
        paths: &PairPaths,
        source_exists: bool,
        target_exists: bool,
    ) -> (r: (Vec<Outcome>, Option<CreateRequest>))
        ensures
            r.0.deep_view() =~~= pair_step_outcomes_spec(
                approve,
                running_as,
                recipe_name@,
                source@,
                link.to@,
                paths.to_path@,
                link.is_privileged(),
                source_exists,
                target_exists,
            ),
            r.1 is Some <==> (source_exists && !target_exists && pending_create_spec(
                approve,
                running_as,
                link.is_privileged(),
            )),
            r.1 matches Some(req) ==> req.source_path@ == paths.source_path@ && req.to_path@
                == paths.to_path@ && req.privileged == link.is_privileged(),
    {
        let mut outcomes: Vec<Outcome> = Vec::new();
        let privileged = link.privileged_flag();
        if !source_exists {
            outcomes.push(
                decide(
                    approve,
                    Outcome::Failure {
                        block_id: block_id(recipe_name, source),
                        message: intent_message(source, link.to.as_str()),
                    },
                ),
            );
        }
        if target_exists {
            outcomes.push(
                decide(
                    approve,
                    Outcome::Failure {
                        block_id: block_id(recipe_name, source),
                        message: collision_message(source),
                    },
                ),
            );
        }
        if source_exists && !target_exists {
            match elevation_policy(running_as, privileged) {
                PolicyDecision::Proceed => {
                    if approve {
                        return (
                            outcomes,
                            Some(
                                CreateRequest {
                                    source_path: paths.source_path.clone(),
                                    to_path: paths.to_path.clone(),
                                    privileged,
                                },
                            ),
                        );
                    }
                    outcomes.push(
                        decide(
                            approve,
                            Outcome::Success {
                                block_id: block_id(recipe_name, source),
                                message: success_message(source, paths.to_path.as_str()),
                            },
                        ),
                    );
                },
                PolicyDecision::RequiresElevation => {
                    outcomes.push(
                        decide(
                            approve,
                            Outcome::Failure {
                                block_id: block_id(recipe_name, source),
                                message: requires_elevation_message(),
                            },
                        ),
                    );
                },
                PolicyDecision::ElevatedButNotWanted => {
                    outcomes.push(
                        decide(
                            approve,
                            Outcome::Failure {
                                block_id: block_id(recipe_name, source),
                                message: elevated_not_wanted_message(),
                            },
                        ),
                    );
                },
            }
        }
        (outcomes, None)
    }

    /// Build the one outcome of a pair whose mutation was carried out, from
    /// what the caller observed.
    pub fn complete(
        &self,
        recipe_name: &str,
        source: &str,
        to_path: &str,
        result: MutationResult,
    ) -> (r: Outcome)
        ensures
            result matches MutationResult::Created ==> r@ == created_outcome_spec(
                recipe_name@,
                source@,
                to_path@,
            ),
            result matches MutationResult::Failed { error } ==> r@ == create_failed_outcome_spec(
                recipe_name@,
                source@,
                to_path@,
                error@,
            ),
    {
        match result {
            MutationResult::Created => Outcome::Success {
                block_id: block_id(recipe_name, source),
                message: success_message(source, to_path),
            },
            MutationResult::Failed { error } => Outcome::Failure {
                block_id: block_id(recipe_name, source),
                message: mutation_failed_message(source, to_path, error.as_str()),
            },
        }
    }
}

/// Dry-run / apply duality: for a pair whose preconditions pass and whose
/// privilege check would proceed, a non-approved run yields exactly one
/// dry-run outcome, and its block id and message are textually identical to
/// those of the success outcome an approved run would record after carrying
/// out the mutation.
pub proof fn lemma_dry_run_duality(
    running_as: PrivilegeLevel,
    name: Seq<char>,
    source: Seq<char>,
    to_decl: Seq<char>,
    to_path: Seq<char>,
    privileged: bool,
)
    requires
        elevation_policy_spec(running_as, privileged) is Proceed,
    ensures
        ({
            let dry = pair_step_outcomes_spec(
                false,
                running_as,
                name,
                source,
                to_decl,
                to_path,
                privileged,
                true,
                false,
            );
            let applied = created_outcome_spec(name, source, to_path);
            &&& dry.len() == 1
            &&& dry[0] is DryRun
            &&& dry[0].block_id() == applied.block_id()
            &&& dry[0].message() == applied.message()
        }),
{
}

/// Precondition independence: when the source-missing and the target-exists
/// conditions hold simultaneously, exactly two outcomes are produced for the
/// pair, not one — the first for the missing source, the second for the
/// collision — and each is a failure in an approved run and a dry-run
/// outcome otherwise.
pub proof fn lemma_precondition_independence(
    approve: bool,
    running_as: PrivilegeLevel,
    name: Seq<char>,
    source: Seq<char>,
    to_decl: Seq<char>,
    to_path: Seq<char>,
    privileged: bool,
)
    ensures
        ({
            let outs = pair_step_outcomes_spec(
                approve,
                running_as,
                name,
                source,
                to_decl,
                to_path,
                privileged,
                false,
                true,
            );
            &&& outs.len() == 2
            &&& outs[0] == decide_spec(approve, missing_source_outcome_spec(name, source, to_decl))
            &&& outs[1] == decide_spec(approve, collision_outcome_spec(name, source))
            &&& approve ==> outs[0] is Failure && outs[1] is Failure
            &&& !approve ==> outs[0] is DryRun && outs[1] is DryRun
        }),
{
}

/// A privilege mismatch never results in a filesystem mutation: a mutation
/// is pending only when the run is approved and the policy proceeds.
pub proof fn lemma_privilege_mismatch_never_mutates(
    approve: bool,
    running_as: PrivilegeLevel,
    privileged: bool,
)
    ensures
        !(elevation_policy_spec(running_as, privileged) is Proceed) ==> !pending_create_spec(
            approve,
            running_as,
            privileged,
        ),
        !approve ==> !pending_create_spec(approve, running_as, privileged),
{
}

/// Every attempted pair yields an auditable record: the decision step either
/// records at least one outcome at once, or leaves exactly one mutation
/// pending, whose completion records the pair's one outcome.
pub proof fn lemma_every_pair_yields_an_outcome(
    approve: bool,
    running_as: PrivilegeLevel,
    name: Seq<char>,
    source: Seq<char>,
    to_decl: Seq<char>,
    to_path: Seq<char>,
    privileged: bool,
    source_exists: bool,
    target_exists: bool,
)
    ensures
        ({
            let outs = pair_step_outcomes_spec(
                approve,
                running_as,
                name,
                source,
                to_decl,
                to_path,
                privileged,
                source_exists,
                target_exists,
            );
            outs.len() > 0 || (source_exists && !target_exists && pending_create_spec(
                approve,
                running_as,
                privileged,
            ))
        }),
{
}

} // verus!
