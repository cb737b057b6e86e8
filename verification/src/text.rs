//! Path and message construction for the link processor: the stable block
//! identifier, the human-readable messages shared by dry-run and apply mode,
//! path joining, tilde expansion, and the reading of the real invoking
//! user's numeric identity.

use vstd::prelude::*;
use vstd::string::*;

verus! {

/// Whether a path begins with a `~` character, the marker for a
/// home-directory-relative target.
pub open spec fn has_tilde_prefix(s: Seq<char>) -> bool {
    s.len() > 0 && s[0] == '~'
}

/// A source path joined onto the recipe root: an absolute source stands
/// alone; otherwise the two are joined with a single `/` between them.
pub open spec fn joined_path(root: Seq<char>, source: Seq<char>) -> Seq<char> {
    if source.len() > 0 && source[0] == '/' {
        source
    } else if root.len() == 0 {
        source
    } else if root[root.len() - 1] == '/' {
        root + source
    } else {
        root + "/"@ + source
    }
}

/// The stable block identifier of a link element: `<recipe>/link/<source>`.
/// It must be stable across runs for the same recipe, to support diffing of
/// reports by downstream tooling.
pub open spec fn block_id_spec(recipe_name: Seq<char>, source: Seq<char>) -> Seq<char> {
    recipe_name + "/link/"@ + source
}

/// Message describing the intended link, used when the source is missing:
/// `link <source> to <to>`.
pub open spec fn intent_message_spec(source: Seq<char>, to: Seq<char>) -> Seq<char> {
    "link "@ + source + " to "@ + to
}

/// Message noting a target collision: `source '<source>' already exists`.
pub open spec fn collision_message_spec(source: Seq<char>) -> Seq<char> {
    "source '"@ + source + "' already exists"@
}

/// Message of a successfully applied link:
/// `successfully linked '<source>' to '<to>'`.
pub open spec fn success_message_spec(source: Seq<char>, to: Seq<char>) -> Seq<char> {
    "successfully linked '"@ + source + "' to '"@ + to + "'"@
}

/// Message of a link that needs elevated execution.
pub open spec fn requires_elevation_message_spec() -> Seq<char> {
    "link requires elevation, rerun with sudo"@
}

/// Message of a link refused because the process is elevated while the link
/// does not request it.
pub open spec fn elevated_not_wanted_message_spec() -> Seq<char> {
    "running elevated, but link does not require elevation"@
}

/// Message of a failed filesystem mutation, with the underlying error text:
/// `link from '<source>' to '<to>' failed: <error>`.
pub open spec fn mutation_failed_message_spec(
    source: Seq<char>,
    to: Seq<char>,
    error: Seq<char>,
) -> Seq<char> {
    "link from '"@ + source + "' to '"@ + to + "' failed: "@ + error
}

/// Build the stable block identifier of a link element.
pub fn block_id(recipe_name: &str, source: &str) -> (r: String)
    ensures
        r@ == block_id_spec(recipe_name@, source@),
{
    String::from_str(recipe_name).concat("/link/").concat(source)
}

/// Build the message describing the intended link.
pub fn intent_message(source: &str, to: &str) -> (r: String)
    ensures
        r@ == intent_message_spec(source@, to@),
{
    String::from_str("link ").concat(source).concat(" to ").concat(to)
}

/// Build the message noting a target collision.
pub fn collision_message(source: &str) -> (r: String)
    ensures
        r@ == collision_message_spec(source@),
{
    String::from_str("source '").concat(source).concat("' already exists")
}

/// Build the message of a successfully applied link.
pub fn success_message(source: &str, to: &str) -> (r: String)
    ensures
        r@ == success_message_spec(source@, to@),
{
    String::from_str("successfully linked '").concat(source).concat("' to '").concat(to).concat(
        "'",
    )
}

/// Build the message of a link that needs elevated execution.
pub fn requires_elevation_message() -> (r: String)
    ensures
        r@ == requires_elevation_message_spec(),
{
    String::from_str("link requires elevation, rerun with sudo")
}

/// Build the message of a link refused under unrequested elevation.
pub fn elevated_not_wanted_message() -> (r: String)
    ensures
        r@ == elevated_not_wanted_message_spec(),
{
    String::from_str("running elevated, but link does not require elevation")
}

/// Build the message of a failed filesystem mutation.
pub fn mutation_failed_message(source: &str, to: &str, error: &str) -> (r: String)
    ensures
        r@ == mutation_failed_message_spec(source@, to@, error@),
{
    String::from_str("link from '").concat(source).concat("' to '").concat(to).concat(
        "' failed: ",
    ).concat(error)
}

/// Join a source path onto the recipe root.
pub fn join_path(root: &str, source: &str) -> (r: String)
    ensures
        r@ == joined_path(root@, source@),
{
    let root_len = root.unicode_len();
    let source_len = source.unicode_len();
    if source_len > 0 && source.get_char(0) == '/' {
        String::from_str(source)
    } else if root_len == 0 {
        String::from_str(source)
    } else if root.get_char(root_len - 1) == '/' {
        String::from_str(root).concat(source)
    } else {
        String::from_str(root).concat("/").concat(source)
    }
}

/// Expand a leading `~` segment of a target path to the current real user's
/// home directory; a path without one comes back unchanged. The expansion
/// happens at resolution time, not at load time, and its result depends on
/// the process environment.
///
/// Relies on shellexpand::tilde: input that does not begin with a tilde is
/// returned unchanged; a leading tilde segment is replaced by the user's
/// home directory where one can be determined.
#[verifier::external_body]
pub(crate) fn expand_tilde(path: &str) -> (r: String)
    ensures
        !has_tilde_prefix(path@) ==> r@ == path@,
{
    shellexpand::tilde(path).into_owned()
}

/// Whether a character is a decimal digit.
pub open spec fn is_digit(c: char) -> bool {
    48 <= c as u32 <= 57
}

/// Whether a sequence consists of decimal digits only.
pub open spec fn all_digits(s: Seq<char>) -> bool {
    forall|i: int| 0 <= i < s.len() ==> is_digit(#[trigger] s[i])
}

/// The numeric value of a sequence of decimal digits.
pub open spec fn decimal_value(s: Seq<char>) -> int
    decreases s.len(),
{
    if s.len() == 0 {
        0
    } else {
        decimal_value(s.drop_last()) * 10 + (s.last() as u32 - 48)
    }
}

/// The digit part of a decimal numeral: an optional leading `+` sign is
/// dropped.
pub open spec fn numeral_digits(s: Seq<char>) -> Seq<char> {
    if s.len() > 0 && s[0] == '+' {
        s.drop_first()
    } else {
        s
    }
}

/// Whether a string parses as a decimal `u32`: after the optional sign, at
/// least one digit, digits only, and a value within range.
pub open spec fn is_u32_numeral(s: Seq<char>) -> bool {
    let d = numeral_digits(s);
    d.len() > 0 && all_digits(d) && decimal_value(d) <= u32::MAX
}

/// The value a string parses to as a decimal `u32`, with anything that does
/// not parse giving zero.
pub open spec fn parsed_u32_or_zero(s: Seq<char>) -> u32 {
    if is_u32_numeral(s) {
        decimal_value(numeral_digits(s)) as u32
    } else {
        0
    }
}

/// The real invoking user's numeric identity as read from one
/// elevation-preserving environment variable: an absent or unparsable value
/// falls back to the super-user identity, numeric zero.
pub open spec fn real_ident_spec(var: Option<Seq<char>>) -> u32 {
    match var {
        Some(s) => parsed_u32_or_zero(s),
        None => 0,
    }
}

proof fn lemma_decimal_nonneg(s: Seq<char>)
    requires
        all_digits(s),
    ensures
        decimal_value(s) >= 0,
    decreases s.len(),
{
    if s.len() > 0 {
        assert(all_digits(s.drop_last()));
        lemma_decimal_nonneg(s.drop_last());
    }
}

/// Extending a digit sequence never shrinks its value: the value of a prefix
/// bounds the value of the whole from below.
proof fn lemma_decimal_prefix_le(s: Seq<char>, i: int)
    requires
        all_digits(s),
        0 <= i <= s.len(),
    ensures
        decimal_value(s.take(i)) <= decimal_value(s),
    decreases s.len() - i,
{
    if i < s.len() {
        lemma_decimal_prefix_le(s, i + 1);
        assert(s.take(i + 1).drop_last() =~= s.take(i));
        assert(all_digits(s.take(i)));
        lemma_decimal_nonneg(s.take(i));
        assert(decimal_value(s.take(i + 1)) == decimal_value(s.take(i)) * 10 + (s[i] as u32
            - 48));
    } else {
        assert(s.take(i) =~= s);
    }
}

/// Parse a string as a decimal `u32`, with zero for anything that does not
/// parse or does not fit.
pub fn parse_u32_or_zero(s: &str) -> (r: u32)
    ensures
        r == parsed_u32_or_zero(s@),
{
    let len = s.unicode_len();
    let mut i: usize = 0;
    if len > 0 && s.get_char(0) == '+' {
        i = 1;
    }
    let start = i;
    let ghost digits = numeral_digits(s@);
    proof {
        assert(digits =~= s@.subrange(start as int, len as int));
    }
    if i >= len {
        return 0;
    }
    let mut acc: u64 = 0;
    while i < len
        invariant
            start <= i <= len,
            len == s@.len(),
            digits == numeral_digits(s@),
            digits =~= s@.subrange(start as int, len as int),
            all_digits(s@.subrange(start as int, i as int)),
            acc == decimal_value(s@.subrange(start as int, i as int)),
            acc <= u32::MAX,
        decreases len - i,
    {
        let c = s.get_char(i);
        let cu = c as u32;
        if !(48 <= cu && cu <= 57) {
            proof {
                assert(digits[i - start] == s@[i as int]);
                assert(!is_digit(digits[i - start]));
                assert(!all_digits(digits));
                assert(!is_u32_numeral(s@));
            }
            return 0;
        }
        let ghost prefix = s@.subrange(start as int, i as int);
        acc = acc * 10 + ((cu - 48) as u64);
        proof {
            assert(s@.subrange(start as int, i + 1).drop_last() =~= prefix);
            assert(decimal_value(s@.subrange(start as int, i + 1)) == decimal_value(prefix) * 10
                + (s@[i as int] as u32 - 48));
        }
        if acc > u32::MAX as u64 {
            proof {
                if all_digits(digits) {
                    assert(s@.subrange(start as int, i + 1) =~= digits.take(i + 1 - start));
                    lemma_decimal_prefix_le(digits, i + 1 - start);
                    assert(decimal_value(digits) >= decimal_value(digits.take(i + 1 - start)));
                    assert(decimal_value(digits.take(i + 1 - start)) == acc);
                    assert(!is_u32_numeral(s@));
                }
                assert(!is_u32_numeral(s@));
            }
            return 0;
        }
        i = i + 1;
    }
    proof {
        assert(s@.subrange(start as int, len as int) =~= digits);
    }
    acc as u32
}

/// Read the real invoking user's numeric identity from the value of one
/// elevation-preserving environment variable, falling back to the super-user
/// identity, numeric zero, when it is absent or unparsable.
pub fn real_ident(var: &Option<String>) -> (r: u32)
    ensures
        r == real_ident_spec(match *var {
            Some(s) => Some(s@),
            None => None,
        }),
{
    match var {
        Some(s) => parse_u32_or_zero(s.as_str()),
        None => 0,
    }
}

} // verus!
