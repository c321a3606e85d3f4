//! The path validator. Canonicalization touches the file system and is done
//! by the caller; what it found is handed in as a `CanonicalPath`, and the
//! rules on sensitive locations and on staying inside a base directory are
//! decided here.

use vstd::prelude::*;
use crate::errors::{Failure, PathRole, ToolError};
use crate::text::{chars_of, contains, is_substring, occurs_at, str_eq, views};

verus! {

/// What canonicalization found for a path.
pub struct CanonicalPath {
    /// The resolved absolute form, as a text.
    pub text: String,
    /// The resolved form cut into its components, root first.
    pub components: Vec<String>,
}

/// The mathematical content of a canonical path.
pub struct PathView {
    pub text: Seq<char>,
    pub components: Seq<Seq<char>>,
}

/// The two forms of a canonical path agree: each component stands
/// somewhere in the text. What canonicalization gives is always so.
pub open spec fn is_consistent(c: PathView) -> bool {
    forall|i: int| 0 <= i < c.components.len() ==> is_substring(#[trigger] c.components[i], c.text)
}

/// The own name of the entry that a canonical path leads to: its last
/// component, or the whole text where it has no component.
pub open spec fn own_name(text: Seq<char>, components: Seq<Seq<char>>) -> Seq<char> {
    if components.len() > 0 {
        components.last()
    } else {
        text
    }
}

impl View for CanonicalPath {
    type V = PathView;

    open spec fn view(&self) -> PathView {
        PathView { text: self.text@, components: views(self.components@) }
    }
}

/// The mathematical content of a validated path: the text that was asked
/// for, and what it resolved to.
pub struct ValidatedView {
    pub requested: Seq<char>,
    pub text: Seq<char>,
    pub components: Seq<Seq<char>>,
}

impl ValidatedView {
    /// The own name of the entry that the path leads to.
    pub open spec fn name(self) -> Seq<char> {
        own_name(self.text, self.components)
    }
}

/// A canonical path that exists and passed the validator's checks. Only the
/// validator makes one, so holding one is proof that the checks were made.
pub struct ValidatedPath {
    requested: String,
    text: String,
    components: Vec<String>,
}

impl View for ValidatedPath {
    type V = ValidatedView;

    closed spec fn view(&self) -> ValidatedView {
        ValidatedView {
            requested: self.requested@,
            text: self.text@,
            components: views(self.components@),
        }
    }
}

/// The canonical form `text` lies in a sensitive location: it contains one
/// of the blocked fragments, compared character by character.
pub open spec fn is_denylisted(text: Seq<char>) -> bool {
    ||| is_substring("Windows\\System32"@, text)
    ||| is_substring("Windows\\SysWOW64"@, text)
    ||| is_substring("Program Files"@, text)
    ||| is_substring("ProgramData"@, text)
    ||| is_substring("\\AppData\\Local\\Microsoft"@, text)
    ||| is_substring("\\AppData\\Roaming\\Microsoft"@, text)
    ||| is_substring(".ssh"@, text)
    ||| is_substring(".gnupg"@, text)
    ||| is_substring(".aws"@, text)
    ||| is_substring(".azure"@, text)
    ||| is_substring("credentials"@, text)
}

/// `target` is `base` itself or lies below it: the components of `base`
/// are the first components of `target`.
pub open spec fn is_within(target: Seq<Seq<char>>, base: Seq<Seq<char>>) -> bool {
    base.is_prefix_of(target)
}

/// What the validator answers for a path that was asked for as
/// `requested` and canonicalized to `canonical` (or did not, when that is
/// `None`), under an optional required base. A missing entry is reported
/// first, an escape from the base next, a sensitive location last.
pub open spec fn verdict(
    requested: Seq<char>,
    canonical: Option<PathView>,
    base: Option<Seq<Seq<char>>>,
) -> Result<ValidatedView, Failure> {
    match canonical {
        None => Err(
            Failure::NotFound(
                if base is Some {
                    PathRole::Target
                } else {
                    PathRole::Path
                },
                requested,
            ),
        ),
        Some(c) => if base is Some && !is_within(c.components, base->0) {
            Err(Failure::TraversalDenied)
        } else if is_denylisted(c.text) {
            Err(Failure::AccessDenied)
        } else {
            Ok(ValidatedView { requested, text: c.text, components: c.components })
        },
    }
}

/// What the validator answers for a target under a base, where the base
/// was asked for as `base_path` and canonicalized to `base`. A base that
/// does not exist is reported first; then the target is judged as any path
/// under a required base.
pub open spec fn verdict_within(
    base_path: Seq<char>,
    base: Option<PathView>,
    target_path: Seq<char>,
    target: Option<PathView>,
) -> Result<ValidatedView, Failure> {
    match base {
        None => Err(Failure::NotFound(PathRole::Base, base_path)),
        Some(b) => verdict(target_path, target, Some(b.components)),
    }
}

/// The mathematical content of a validator result.
pub open spec fn outcome(r: Result<ValidatedPath, ToolError>) -> Result<ValidatedView, Failure> {
    match r {
        Ok(p) => Ok(p@),
        Err(e) => Err(e@),
    }
}

/// The mathematical content of an optional canonical path.
pub open spec fn found(c: Option<CanonicalPath>) -> Option<PathView> {
    match c {
        Some(p) => Some(p@),
        None => None,
    }
}

/// The components of an optional base.
pub open spec fn base_of(b: Option<&ValidatedPath>) -> Option<Seq<Seq<char>>> {
    match b {
        Some(p) => Some(p@.components),
        None => None,
    }
}

fn holds(text: &Vec<char>, fragment: &str) -> (r: bool)
    ensures
        r == is_substring(fragment@, text@),
{
    let f = chars_of(fragment);
    contains(text, &f)
}

/// Whether a canonical form lies in a sensitive location.
pub fn denylisted(text: &str) -> (r: bool)
    ensures
        r == is_denylisted(text@),
{
    let t = chars_of(text);
    holds(&t, "Windows\\System32") || holds(&t, "Windows\\SysWOW64") || holds(&t, "Program Files")
        || holds(&t, "ProgramData") || holds(&t, "\\AppData\\Local\\Microsoft") || holds(
        &t,
        "\\AppData\\Roaming\\Microsoft",
    ) || holds(&t, ".ssh") || holds(&t, ".gnupg") || holds(&t, ".aws") || holds(&t, ".azure")
        || holds(&t, "credentials")
}

/// Whether the components of `base` are the first components of `target`.
pub fn within(target: &Vec<String>, base: &Vec<String>) -> (r: bool)
    ensures
        r == is_within(views(target@), views(base@)),
{
    if base.len() > target.len() {
        return false;
    }
    let mut i: usize = 0;
    while i < base.len()
        invariant
            i <= base.len() <= target.len(),
            forall|k: int| 0 <= k < i ==> base@[k]@ == target@[k]@,
        decreases base.len() - i,
    {
        if !str_eq(base[i].as_str(), target[i].as_str()) {
            assert(views(base@)[i as int] != views(target@)[i as int]);
            return false;
        }
        i += 1;
    }
    assert(views(base@) =~= views(target@).subrange(0, base@.len() as int));
    true
}

impl ValidatedPath {
    #[verifier::type_invariant]
    spec fn well_formed(self) -> bool {
        !is_denylisted(self.text@)
    }

    /// The path as the caller wrote it.
    pub fn requested(&self) -> (s: &str)
        ensures
            s@ == self@.requested,
    {
        self.requested.as_str()
    }

    /// The canonical form. It never lies in a sensitive location.
    pub fn as_str(&self) -> (s: &str)
        ensures
            s@ == self@.text,
            !is_denylisted(s@),
    {
        proof {
            use_type_invariant(self);
        }
        self.text.as_str()
    }

    /// The own name of the entry: the last component of the canonical
    /// form, or the whole form where it has no component.
    pub fn name(&self) -> (s: &str)
        ensures
            s@ == self@.name(),
    {
        let n = self.components.len();
        if n > 0 {
            assert(views(self.components@).last() == self.components@[n - 1]@);
            self.components[n - 1].as_str()
        } else {
            self.text.as_str()
        }
    }

    /// The components of the canonical form, root first.
    pub fn components(&self) -> (c: &Vec<String>)
        ensures
            views(c@) == self@.components,
    {
        &self.components
    }
}

/// Validates a path under an optional required base. `canonical` is what
/// canonicalizing `raw_path` gave, `None` when the entry does not exist.
pub fn validate(
    raw_path: &str,
    canonical: Option<CanonicalPath>,
    required_base: Option<&ValidatedPath>,
) -> (r: Result<ValidatedPath, ToolError>)
    ensures
        outcome(r) == verdict(raw_path@, found(canonical), base_of(required_base)),
{
    match required_base {
        Some(base) => judge(raw_path, canonical, Some(&base.components)),
        None => judge(raw_path, canonical, None),
    }
}

/// The components of an optional base.
pub open spec fn components_of(b: Option<&Vec<String>>) -> Option<Seq<Seq<char>>> {
    match b {
        Some(c) => Some(views(c@)),
        None => None,
    }
}

/// Judges a canonical path under the components of an optional base.
fn judge(raw_path: &str, canonical: Option<CanonicalPath>, base: Option<&Vec<String>>) -> (r: Result<
    ValidatedPath,
    ToolError,
>)
    ensures
        outcome(r) == verdict(raw_path@, found(canonical), components_of(base)),
{
    match canonical {
        None => {
            let role = if base.is_some() {
                PathRole::Target
            } else {
                PathRole::Path
            };
            Err(ToolError::NotFound(role, raw_path.to_owned()))
        },
        Some(c) => {
            let inside = match base {
                Some(b) => within(&c.components, b),
                None => true,
            };
            if !inside {
                Err(ToolError::TraversalDenied)
            } else if denylisted(c.text.as_str()) {
                Err(ToolError::AccessDenied)
            } else {
                Ok(
                    ValidatedPath {
                        requested: raw_path.to_owned(),
                        text: c.text,
                        components: c.components,
                    },
                )
            }
        },
    }
}

/// Validates a path with no required base: the entry must exist and must
/// not lie in a sensitive location.
pub fn validate_path(path_str: &str, canonical: Option<CanonicalPath>) -> (r: Result<
    ValidatedPath,
    ToolError,
>)
    ensures
        outcome(r) == verdict(path_str@, found(canonical), None),
{
    validate(path_str, canonical, None)
}

/// Validates a target that must stay inside a base. `base` is what
/// canonicalizing `base_path` gave, and `target` what canonicalizing
/// `target_path`, taken relative to the base, gave.
pub fn validate_path_within_base(
    base_path: &str,
    base: Option<CanonicalPath>,
    target_path: &str,
    target: Option<CanonicalPath>,
) -> (r: Result<ValidatedPath, ToolError>)
    ensures
        outcome(r) == verdict_within(base_path@, found(base), target_path@, found(target)),
{
    match base {
        None => Err(ToolError::NotFound(PathRole::Base, base_path.to_owned())),
        Some(b) => judge(target_path, target, Some(&b.components)),
    }
}

/// A canonical path outside the base's subtree is refused with
/// `TraversalDenied`, whatever it was asked for as and however it came to
/// resolve there.
pub proof fn lemma_path_outside_base_is_denied(
    requested: Seq<char>,
    canonical: PathView,
    base: Seq<Seq<char>>,
)
    requires
        !is_within(canonical.components, base),
    ensures
        verdict(requested, Some(canonical), Some(base)) == Err::<ValidatedView, Failure>(
            Failure::TraversalDenied,
        ),
{
}

/// A canonical path that lies in a sensitive location and does not escape
/// a required base is refused with `AccessDenied`, with a base and without
/// one.
pub proof fn lemma_sensitive_path_is_denied(
    requested: Seq<char>,
    canonical: PathView,
    base: Option<Seq<Seq<char>>>,
)
    requires
        is_denylisted(canonical.text),
        base is Some ==> is_within(canonical.components, base->0),
    ensures
        verdict(requested, Some(canonical), base) == Err::<ValidatedView, Failure>(
            Failure::AccessDenied,
        ),
{
}

/// No path in a sensitive location is ever accepted, whatever the base.
pub proof fn lemma_sensitive_path_is_never_accepted(
    requested: Seq<char>,
    canonical: PathView,
    base: Option<Seq<Seq<char>>>,
)
    requires
        is_denylisted(canonical.text),
    ensures
        verdict(requested, Some(canonical), base) is Err,
        verdict(requested, Some(canonical), base)->Err_0 == Failure::AccessDenied || verdict(
            requested,
            Some(canonical),
            base,
        )->Err_0 == Failure::TraversalDenied,
{
}

/// Every path that the validator accepts exists, lies in no sensitive
/// location and, where a base is required, lies inside it.
pub proof fn lemma_accepted_path_is_safe(
    requested: Seq<char>,
    canonical: Option<PathView>,
    base: Option<Seq<Seq<char>>>,
)
    requires
        verdict(requested, canonical, base) is Ok,
    ensures
        canonical is Some,
        !is_denylisted(canonical->0.text),
        base is Some ==> is_within(canonical->0.components, base->0),
        verdict(requested, canonical, base)->Ok_0.text == canonical->0.text,
        verdict(requested, canonical, base)->Ok_0.components == canonical->0.components,
{
}

/// What occurs in a part of a text occurs in the text.
proof fn lemma_substring_of_part(fragment: Seq<char>, part: Seq<char>, text: Seq<char>)
    requires
        is_substring(fragment, part),
        is_substring(part, text),
    ensures
        is_substring(fragment, text),
{
    let a = choose|a: int| occurs_at(fragment, part, a);
    let b = choose|b: int| occurs_at(part, text, b);
    let whole = text.subrange(b, b + part.len());
    let inner = text.subrange(a + b, a + b + fragment.len());
    let outer = part.subrange(a, a + fragment.len());
    assert(whole == part);
    assert forall|k: int| 0 <= k < fragment.len() implies #[trigger] inner[k] == outer[k] by {
        assert(whole[a + k] == text[b + (a + k)]);
    }
    assert(inner =~= outer);
    assert(occurs_at(fragment, text, a + b));
}

/// A path of which one component lies in a sensitive location is never
/// accepted, where its two forms agree: the test on the text catches what
/// any single name holds.
pub proof fn lemma_sensitive_component_is_never_accepted(
    requested: Seq<char>,
    canonical: PathView,
    base: Option<Seq<Seq<char>>>,
    i: int,
)
    requires
        is_consistent(canonical),
        0 <= i < canonical.components.len(),
        is_denylisted(canonical.components[i]),
    ensures
        is_denylisted(canonical.text),
        verdict(requested, Some(canonical), base) is Err,
{
    let part = canonical.components[i];
    let text = canonical.text;
    if is_substring("Windows\\System32"@, part) {
        lemma_substring_of_part("Windows\\System32"@, part, text);
    } else if is_substring("Windows\\SysWOW64"@, part) {
        lemma_substring_of_part("Windows\\SysWOW64"@, part, text);
    } else if is_substring("Program Files"@, part) {
        lemma_substring_of_part("Program Files"@, part, text);
    } else if is_substring("ProgramData"@, part) {
        lemma_substring_of_part("ProgramData"@, part, text);
    } else if is_substring("\\AppData\\Local\\Microsoft"@, part) {
        lemma_substring_of_part("\\AppData\\Local\\Microsoft"@, part, text);
    } else if is_substring("\\AppData\\Roaming\\Microsoft"@, part) {
        lemma_substring_of_part("\\AppData\\Roaming\\Microsoft"@, part, text);
    } else if is_substring(".ssh"@, part) {
        lemma_substring_of_part(".ssh"@, part, text);
    } else if is_substring(".gnupg"@, part) {
        lemma_substring_of_part(".gnupg"@, part, text);
    } else if is_substring(".aws"@, part) {
        lemma_substring_of_part(".aws"@, part, text);
    } else if is_substring(".azure"@, part) {
        lemma_substring_of_part(".azure"@, part, text);
    } else {
        lemma_substring_of_part("credentials"@, part, text);
    }
}

} // verus!
