//! Patches as text: made from two versions of a file, and applied to a version of it.
use diffy::{ApplyError, ParsePatchError, Patch};
use vstd::prelude::*;

verus! {

/// `diffy::Patch`: an opaque value. What it holds goes by the names `patch_hunks` and
/// `patch_names`.
#[verifier::external_type_specification]
#[verifier::external_body]
#[verifier::reject_recursive_types(T)]
pub struct ExPatch<'a, T: ToOwned + ?Sized>(Patch<'a, T>);

/// `diffy::ParsePatchError`: an opaque value, of which nothing is said.
#[verifier::external_type_specification]
#[verifier::external_body]
pub struct ExParsePatchError(ParsePatchError);

/// `diffy::ApplyError`: an opaque value, of which nothing is said.
#[verifier::external_type_specification]
#[verifier::external_body]
pub struct ExApplyError(ApplyError);

/// A line of a hunk, with its newline where it has one.
pub enum HunkLine {
    /// A line of both versions.
    Context(Seq<char>),
    /// A line of the old version alone.
    Delete(Seq<char>),
    /// A line of the new version alone.
    Insert(Seq<char>),
}

/// A group of differing lines: where it lies in the old and in the new version, and the lines.
pub struct Hunk {
    pub old_start: nat,
    pub old_len: nat,
    pub new_start: nat,
    pub new_len: nat,
    pub function_context: Option<Seq<char>>,
    pub lines: Seq<HunkLine>,
}

/// The hunks that a patch holds, in order.
pub uninterp spec fn patch_hunks(patch: Patch<'static, str>) -> Seq<Hunk>;

/// The names of the old and of the new file that a patch holds.
pub uninterp spec fn patch_names(patch: Patch<'static, str>) -> (
    Option<Seq<char>>,
    Option<Seq<char>>,
);

/// The hunks of the patch that `create_patch` makes from an old and a new text.
pub uninterp spec fn diff_hunks(old_text: Seq<char>, new_text: Seq<char>) -> Seq<Hunk>;

/// The text of a patch with the given names and hunks.
pub uninterp spec fn hunks_text(
    names: (Option<Seq<char>>, Option<Seq<char>>),
    hunks: Seq<Hunk>,
) -> Seq<char>;

/// The hunks of the patch that a text is, or nothing where it is none, on a machine whose `usize`
/// has `word_bits` bits: a line number that does not fit it makes the text no patch.
pub uninterp spec fn text_hunks(text: Seq<char>, word_bits: u32) -> Option<Seq<Hunk>>;

/// What the hunks make of a text, or nothing where one of them does not fit it.
pub uninterp spec fn apply_hunks(base: Seq<char>, hunks: Seq<Hunk>) -> Option<Seq<char>>;

/// The names that `create_patch` puts into a patch.
pub open spec fn default_names() -> (Option<Seq<char>>, Option<Seq<char>>) {
    (Some("original"@), Some("modified"@))
}

/// `diffy::create_patch`: a patch under the default names, with hunks that depend on the two texts
/// alone, which turn the old text into the new one and are read back from the text of the patch.
#[verifier::external_body]
fn create_patch<'a>(old_text: &'a str, new_text: &'a str) -> (patch: Patch<'a, str>)
    ensures
        patch_names(patch) == default_names(),
        patch_hunks(patch) == diff_hunks(old_text@, new_text@),
        apply_hunks(old_text@, patch_hunks(patch)) == Some(new_text@),
        text_hunks(hunks_text(patch_names(patch), patch_hunks(patch)), usize::BITS) == Some(
            patch_hunks(patch),
        ),
{
    diffy::create_patch(old_text, new_text)
}

/// `diffy::Patch::to_string`: the text of the patch, which depends on its names and hunks alone.
#[verifier::external_body]
fn patch_to_string(patch: &Patch<'_, str>) -> (text: String)
    ensures
        text@ == hunks_text(patch_names(*patch), patch_hunks(*patch)),
{
    patch.to_string()
}

/// `diffy::Patch::from_str`: whether the text is a patch, and its hunks, depend on the text and,
/// for line numbers that are too large for it, on the width of `usize`.
#[verifier::external_body]
fn parse_patch(text: &str) -> (r: Result<Patch<'_, str>, ParsePatchError>)
    ensures
        r is Ok <==> text_hunks(text@, usize::BITS) is Some,
        r matches Ok(patch) ==> text_hunks(text@, usize::BITS) == Some(patch_hunks(patch)),
{
    Patch::from_str(text)
}

/// `diffy::apply`: whether the hunks fit the base text, and what they make of it, depend on the
/// text and the hunks alone.
#[verifier::external_body]
fn apply_parsed(base: &str, patch: &Patch<'_, str>) -> (r: Result<String, ApplyError>)
    ensures
        r is Ok <==> apply_hunks(base@, patch_hunks(*patch)) is Some,
        r matches Ok(text) ==> apply_hunks(base@, patch_hunks(*patch)) == Some(text@),
{
    diffy::apply(base, patch)
}

/// Why a patch changed nothing.
#[derive(Debug, Clone, Copy, PartialEq, Eq, Structural)]
pub enum PatchError {
    /// The text is no patch.
    Unparsable,
    /// The patch does not fit the text it is applied to.
    Inapplicable,
}

/// The text of the patch from one version of a file to another.
pub open spec fn patch_text(old_text: Seq<char>, new_text: Seq<char>) -> Seq<char> {
    hunks_text(default_names(), diff_hunks(old_text, new_text))
}

/// What applying a patch in its text form to `base` comes to.
pub open spec fn patch_outcome(base: Seq<char>, text: Seq<char>) -> Result<Seq<char>, PatchError> {
    match text_hunks(text, usize::BITS) {
        None => Err(PatchError::Unparsable),
        Some(hunks) => match apply_hunks(base, hunks) {
            None => Err(PatchError::Inapplicable),
            Some(patched) => Ok(patched),
        },
    }
}

/// A result with its text taken by its view.
pub open spec fn text_result<E>(r: Result<String, E>) -> Result<Seq<char>, E> {
    match r {
        Ok(text) => Ok(text@),
        Err(e) => Err(e),
    }
}

/// The patch from `old_text` to `new_text`, as text. Applied to `old_text` it gives `new_text`.
pub fn make_patch(old_text: &str, new_text: &str) -> (text: String)
    ensures
        text@ == patch_text(old_text@, new_text@),
        patch_outcome(old_text@, text@) == Ok::<Seq<char>, PatchError>(new_text@),
        text@ == hunks_text(
            (Some("original"@), Some("modified"@)),
            diff_hunks(old_text@, new_text@),
        ),
        text_hunks(text@, usize::BITS) == Some(diff_hunks(old_text@, new_text@)),
        apply_hunks(old_text@, diff_hunks(old_text@, new_text@)) == Some(new_text@),
{
    let patch = create_patch(old_text, new_text);
    patch_to_string(&patch)
}

/// Applies a patch, given as text, to `base`.
pub fn apply_patch(base: &str, text: &str) -> (r: Result<String, PatchError>)
    ensures
        text_result(r) == patch_outcome(base@, text@),
        match text_hunks(text@, usize::BITS) {
            None => r == Err::<String, PatchError>(PatchError::Unparsable),
            Some(hunks) => match apply_hunks(base@, hunks) {
                None => r == Err::<String, PatchError>(PatchError::Inapplicable),
                Some(patched) => r matches Ok(result) && result@ == patched,
            },
        },
{
    match parse_patch(text) {
        Err(_) => Err(PatchError::Unparsable),
        Ok(patch) => match apply_parsed(base, &patch) {
            Err(_) => Err(PatchError::Inapplicable),
            Ok(patched) => Ok(patched),
        },
    }
}

/// A patch takes effect on every text that its hunks fit, whichever text it was made from, and the
/// effect is what the hunks make of that text.
pub proof fn law_fitting_patch_takes_effect(
    base: Seq<char>,
    text: Seq<char>,
    hunks: Seq<Hunk>,
    patched: Seq<char>,
)
    requires
        text_hunks(text, usize::BITS) == Some(hunks),
        apply_hunks(base, hunks) == Some(patched),
    ensures
        patch_outcome(base, text) == Ok::<Seq<char>, PatchError>(patched),
{
}

/// A text that is no patch is reported as such, and a patch whose hunks do not fit is reported as
/// that: neither makes a content of its own.
pub proof fn law_unfit_patch_has_no_effect(base: Seq<char>, text: Seq<char>)
    ensures
        text_hunks(text, usize::BITS) is None <==> patch_outcome(base, text) == Err::<
            Seq<char>,
            PatchError,
        >(PatchError::Unparsable),
        (text_hunks(text, usize::BITS) matches Some(hunks) && apply_hunks(base, hunks) is None)
            <==> patch_outcome(base, text) == Err::<Seq<char>, PatchError>(
            PatchError::Inapplicable,
        ),
{
}

/// A patch is written under the two fixed names, with the differences of the two texts.
pub proof fn law_patch_is_the_difference(old_text: Seq<char>, new_text: Seq<char>)
    ensures
        patch_text(old_text, new_text) == hunks_text(
            (Some("original"@), Some("modified"@)),
            diff_hunks(old_text, new_text),
        ),
{
}

} // verus!
