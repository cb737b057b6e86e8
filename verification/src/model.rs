//! The typed recipe model: links, recipes, package declarations, and the
//! process-wide privilege level.
//!
//! Recipe values are immutable once constructed; the engine and the link
//! processor never mutate them. Paths are carried as plain strings: a link's
//! target may hold a leading `~` segment, which is expanded at resolution
//! time, not at load time.

use vstd::prelude::*;

verus! {

/// Privilege level of the running process, sampled once per invocation by the
/// caller and threaded as a parameter into the policy and the processor.
#[derive(Clone, Copy, PartialEq, Eq, Structural, Debug)]
pub enum PrivilegeLevel {
    /// Running as a normal user.
    User,
    /// Running as root.
    Root,
    /// Running with effective root identity gained through a setuid bit.
    SetuidElevated,
}

/// Decision of the privilege elevation policy for one link.
#[derive(Clone, Copy, PartialEq, Eq, Structural, Debug)]
pub enum PolicyDecision {
    /// The link may be applied under the current privilege level.
    Proceed,
    /// The link is privileged but the process is not elevated.
    RequiresElevation,
    /// The process is elevated but the link does not request it.
    ElevatedButNotWanted,
}

/// A link between a source and a target.
///
/// A "privileged" link is only handled when running elevated, and its
/// resulting ownership is transferred to the real invoking user.
#[derive(Debug)]
pub struct Link {
    /// Target path where the symlink should be created; an absolute path or a
    /// `~`-relative one.
    pub to: String,
    /// Optional declaration that this link must be created under elevation;
    /// absent means not privileged.
    pub privileged: Option<bool>,
}

impl Link {
    /// The declared privileged flag, with absence meaning `false`.
    pub open spec fn is_privileged(&self) -> bool {
        self.privileged == Some(true)
    }

    /// Return the privileged flag, defaulting to `false` when absent.
    pub fn privileged_flag(&self) -> (r: bool)
        ensures
            r == self.is_privileged(),
    {
        match self.privileged {
            Some(b) => b,
            None => false,
        }
    }
}

/// One entry of a recipe's link section: a source path (relative to the
/// recipe root) and the link declared for it.
#[derive(Debug)]
pub struct LinkEntry {
    /// Source path, relative to the recipe root.
    pub source: String,
    /// The declared link.
    pub link: Link,
}

/// A package manager that package declarations may name.
#[derive(Clone, Copy, PartialEq, Eq, Structural, Debug)]
pub enum PackageManager {
    Brew,
    Yay,
}

/// A block of package declarations: an optional list of package names and an
/// optional set of package managers to use for them.
#[derive(Debug)]
pub struct Packages {
    /// Names of packages that should be present.
    pub list: Option<Vec<String>>,
    /// Package managers the packages should be checked with.
    pub manager: Option<Vec<PackageManager>>,
}

/// A recipe holds all elements which should be applied in one run: an ordered
/// link section and, prospectively, package declarations.
#[derive(Debug)]
pub struct Recipe {
    /// Ordered mapping from source path to link; order matters for
    /// deterministic processing and reporting.
    pub link: Option<Vec<LinkEntry>>,
    /// Declared packages.
    pub packages: Option<Vec<Packages>>,
}

/// A named recipe, as produced by the external loader.
#[derive(Debug)]
pub struct RecipeEntry {
    /// The recipe name, derived from the source file identity.
    pub name: String,
    /// The recipe itself.
    pub recipe: Recipe,
}

/// The link section of a recipe, as a sequence; absent sections give the
/// empty sequence.
pub open spec fn spec_links(e: RecipeEntry) -> Seq<LinkEntry> {
    match e.recipe.link {
        Some(v) => v@,
        None => Seq::empty(),
    }
}

/// Whether a recipe declares a non-empty link section.
pub open spec fn spec_has_links(e: RecipeEntry) -> bool {
    e.recipe.link is Some && spec_links(e).len() > 0
}

} // verus!
