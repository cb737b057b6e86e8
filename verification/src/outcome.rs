//! The outcome taxonomy: the three-way per-link result and the per-recipe
//! ordered collection of results, plus the single decision rule that unifies
//! dry-run and apply semantics.

use vstd::prelude::*;

verus! {

/// Each attempted link element yields at least one outcome.
///
/// An outcome can be:
/// * a dry run - the action was determined but not executed because the run
///   was not approved
/// * a success - the element was successfully applied
/// * a failure - the element could not be validated or its application failed
#[derive(Debug)]
pub enum Outcome {
    DryRun { block_id: String, message: String },
    Success { block_id: String, message: String },
    Failure { block_id: String, message: String },
}

/// Mathematical model of an [`Outcome`]: the same three kinds over character
/// sequences.
pub enum OutcomeV {
    DryRun { block_id: Seq<char>, message: Seq<char> },
    Success { block_id: Seq<char>, message: Seq<char> },
    Failure { block_id: Seq<char>, message: Seq<char> },
}

impl OutcomeV {
    /// The block identifier, whatever the kind.
    pub open spec fn block_id(self) -> Seq<char> {
        match self {
            OutcomeV::DryRun { block_id, .. } => block_id,
            OutcomeV::Success { block_id, .. } => block_id,
            OutcomeV::Failure { block_id, .. } => block_id,
        }
    }

    /// The human-readable message, whatever the kind.
    pub open spec fn message(self) -> Seq<char> {
        match self {
            OutcomeV::DryRun { message, .. } => message,
            OutcomeV::Success { message, .. } => message,
            OutcomeV::Failure { message, .. } => message,
        }
    }
}

impl View for Outcome {
    type V = OutcomeV;

    open spec fn view(&self) -> OutcomeV {
        match self {
            Outcome::DryRun { block_id, message } => OutcomeV::DryRun {
                block_id: block_id@,
                message: message@,
            },
            Outcome::Success { block_id, message } => OutcomeV::Success {
                block_id: block_id@,
                message: message@,
            },
            Outcome::Failure { block_id, message } => OutcomeV::Failure {
                block_id: block_id@,
                message: message@,
            },
        }
    }
}

impl DeepView for Outcome {
    type V = OutcomeV;

    open spec fn deep_view(&self) -> OutcomeV {
        self.view()
    }
}

/// The single decision rule governing outcome kind selection (dry-run /
/// apply duality): an approved run reports the would-be outcome as declared;
/// a non-approved run reports a dry-run outcome carrying the same block id
/// and message.
pub open spec fn decide_spec(approve: bool, would_be: OutcomeV) -> OutcomeV {
    if approve {
        would_be
    } else {
        OutcomeV::DryRun { block_id: would_be.block_id(), message: would_be.message() }
    }
}

/// Apply the dry-run / apply duality rule to a would-be outcome.
pub fn decide(approve: bool, would_be: Outcome) -> (r: Outcome)
    ensures
        r@ == decide_spec(approve, would_be@),
{
    if approve {
        would_be
    } else {
        match would_be {
            Outcome::DryRun { block_id, message } => Outcome::DryRun { block_id, message },
            Outcome::Success { block_id, message } => Outcome::DryRun { block_id, message },
            Outcome::Failure { block_id, message } => Outcome::DryRun { block_id, message },
        }
    }
}

/// The outcomes recorded for one recipe, in the order they were produced.
#[derive(Debug)]
pub struct RecipeOutcomes {
    /// The recipe's name.
    pub name: String,
    /// The ordered outcomes recorded under that name.
    pub outcomes: Vec<Outcome>,
}

/// A collection of [`Outcome`]s: an ordered mapping from recipe name to the
/// ordered list of outcomes recorded for that recipe. Entries accumulate by
/// insertion during one engine run and are never removed or mutated.
#[derive(Debug)]
pub struct Outcomes {
    /// The entries, in the order the recipes were processed.
    pub entries: Vec<RecipeOutcomes>,
}

impl View for Outcomes {
    type V = Seq<(Seq<char>, Seq<OutcomeV>)>;

    open spec fn view(&self) -> Seq<(Seq<char>, Seq<OutcomeV>)> {
        self.entries@.map(|i: int, e: RecipeOutcomes| (e.name@, e.outcomes.deep_view()))
    }
}

/// How one [`Outcomes::add`] call relates the collection after the call to
/// the collection before it: outcomes for a name already at the back
/// accumulate by append; a fresh name gains a new entry at the back.
pub open spec fn adds(
    pre: Seq<(Seq<char>, Seq<OutcomeV>)>,
    post: Seq<(Seq<char>, Seq<OutcomeV>)>,
    name: Seq<char>,
    outs: Seq<OutcomeV>,
) -> bool {
    if pre.len() > 0 && pre.last().0 == name {
        post =~~= pre.drop_last().push((name, pre.last().1 + outs))
    } else {
        post =~~= pre.push((name, outs))
    }
}

/// Recorded outcomes are never removed or mutated: an add keeps every
/// earlier entry as it is, and at most extends the last entry's list or
/// opens a new entry at the back.
pub proof fn lemma_adds_accumulates(
    pre: Seq<(Seq<char>, Seq<OutcomeV>)>,
    post: Seq<(Seq<char>, Seq<OutcomeV>)>,
    name: Seq<char>,
    outs: Seq<OutcomeV>,
)
    requires
        adds(pre, post, name, outs),
    ensures
        post.len() >= pre.len(),
        forall|i: int|
            0 <= i < pre.len() ==> #[trigger] post[i].0 == pre[i].0 && pre[i].1.is_prefix_of(
                post[i].1,
            ),
{
    assert forall|i: int|
        0 <= i < pre.len() implies #[trigger] post[i].0 == pre[i].0 && pre[i].1.is_prefix_of(
        post[i].1,
    ) by {
        if pre.len() > 0 && pre.last().0 == name && i == pre.len() - 1 {
            assert(post[i].1 == pre.last().1 + outs);
            assert(pre[i].1 =~= post[i].1.subrange(0, pre[i].1.len() as int));
        } else {
            assert(post[i] == pre[i]);
            assert(pre[i].1 =~= post[i].1.subrange(0, pre[i].1.len() as int));
        }
    }
}

impl Outcomes {
    /// Create a new, empty [`Outcome`] collection, keyed by recipe name.
    pub fn new() -> (r: Outcomes)
        ensures
            r@ =~= Seq::<(Seq<char>, Seq<OutcomeV>)>::empty(),
    {
        Outcomes { entries: Vec::new() }
    }

    /// Add a list of [`Outcome`]s for a given recipe name.
    /// If the recipe already has some [`Outcome`]s, the new ones are
    /// appended.
    ///
    /// The engine processes recipes one after another in name order, so a
    /// name that is added again can only be the one added last.
    pub fn add(&mut self, recipe_name: &String, outcomes: Vec<Outcome>)
        requires
            forall|i: int|
                0 <= i < old(self)@.len() - 1 ==> #[trigger] old(self)@[i].0 != recipe_name@,
        ensures
            adds(old(self)@, final(self)@, recipe_name@, outcomes.deep_view()),
    {
        let n = self.entries.len();
        if n > 0 && self.entries[n - 1].name == *recipe_name {
            let mut last = self.entries.pop().unwrap();
            let mut more = outcomes;
            last.outcomes.append(&mut more);
            self.entries.push(last);
            proof {
                assert(final(self)@ =~~= old(self)@.drop_last().push(
                    (recipe_name@, old(self)@.last().1 + outcomes.deep_view()),
                ));
            }
        } else {
            self.entries.push(RecipeOutcomes { name: recipe_name.clone(), outcomes });
            proof {
                assert(final(self)@ =~~= old(self)@.push((recipe_name@, outcomes.deep_view())));
            }
        }
    }
}

} // verus!
