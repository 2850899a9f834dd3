//! Handling one manifest: resolving its version, choosing what to do with it,
//! and producing the text to write back.

use crate::text::{lowercase_text, lowercased, same_text, trim_text, trimmed};
use crate::toml::{
    member_entries, package_field, package_is_table, package_string, package_table, parse_toml,
    render_toml, set_package_version, toml_document, toml_text, top_key,
};
use crate::version::{bump_version, BumpKind, Version};
use toml_edit::DocumentMut;
use vstd::prelude::*;

verus! {

/// Why handling a manifest failed.
#[derive(Clone, Copy, Debug, PartialEq, Eq, Structural)]
pub enum VerctlError {
    /// The manifest file is not there.
    NotFound,
    /// The text is not well-formed TOML.
    Parse,
    /// The manifest has no `package` table.
    MissingSection,
}

/// What a run was asked to do.
#[derive(Clone, Debug)]
pub struct Args {
    /// An explicit bump policy.
    pub bump: Option<BumpKind>,
    /// Bump the patch component without asking.
    pub auto: bool,
    /// A version to store as it is, in place of any bump.
    pub set: Option<String>,
    /// The manifest to work on.
    pub file: String,
    /// In a workspace, the one member directory to touch.
    pub only: Option<String>,
    /// Only report names and versions.
    pub list: bool,
}

impl Default for Args {
    fn default() -> (r: Args)
        ensures
            r.bump is None,
            !r.auto,
            r.set is None,
            r.file@ == Seq::<char>::empty(),
            r.only is None,
            !r.list,
    {
        Args { bump: None, auto: false, set: None, file: String::new(), only: None, list: false }
    }
}

pub open spec fn version_key() -> Seq<char> {
    seq!['v', 'e', 'r', 's', 'i', 'o', 'n']
}

pub open spec fn name_key() -> Seq<char> {
    seq!['n', 'a', 'm', 'e']
}

/// The version a package gets when its manifest has none.
pub open spec fn default_version() -> Seq<char> {
    seq!['0', '.', '1', '.', '0']
}

/// The policy in force: an explicit one, else patch under `auto`, else the
/// answer to the prompt, if one was given.
pub open spec fn resolved_policy(
    bump: Option<BumpKind>,
    auto: bool,
    answer: Option<BumpKind>,
) -> Option<BumpKind> {
    match bump {
        Some(b) => Some(b),
        None => if auto {
            Some(BumpKind::Patch)
        } else {
            answer
        },
    }
}

/// What handling a parsed manifest comes to.
pub enum Plan {
    /// Store this version and write the manifest.
    Write(Seq<char>),
    /// Write nothing; the version stays as it is.
    Keep(Seq<char>),
    /// A policy has to be asked for first.
    Ask,
    /// There is no `package` table.
    Missing,
}

/// The plan for a document, given an explicit version to set and the policy
/// in force.
pub open spec fn plan(d: DocumentMut, set: Option<Seq<char>>, policy: Option<BumpKind>) -> Plan {
    let found = package_field(d, version_key());
    let current = match found {
        Some(v) => v,
        None => default_version(),
    };
    if !package_table(d) {
        Plan::Missing
    } else if set is Some {
        Plan::Write(set->Some_0)
    } else {
        match policy {
            None => Plan::Ask,
            Some(BumpKind::Keep) => if found is Some {
                Plan::Keep(current)
            } else {
                Plan::Write(current)
            },
            Some(k) => Plan::Write(Version::parsed(current).bumped_spec(k).text()),
        }
    }
}

/// `d` is `old` with `v` stored as the package version and nothing else
/// that is read here changed.
pub open spec fn stored(d: DocumentMut, old: DocumentMut, v: Seq<char>) -> bool {
    &&& package_table(d)
    &&& package_field(d, version_key()) == Some(v)
    &&& forall|k: Seq<char>|
        k != version_key() ==> #[trigger] package_field(d, k) == package_field(old, k)
    &&& member_entries(d) == member_entries(old)
    &&& forall|k: Seq<char>| #[trigger] top_key(d, k) == top_key(old, k)
}

/// With no version to set and the `Keep` policy, a manifest that holds a
/// version is left as it is, byte for byte; one without a version gets the
/// default version written, and nothing else.
pub proof fn lemma_keep_changes_nothing(d: DocumentMut)
    requires
        package_table(d),
    ensures
        package_field(d, version_key()) is Some ==> plan(d, None, Some(BumpKind::Keep)) == Plan::Keep(
            package_field(d, version_key())->Some_0,
        ),
        package_field(d, version_key()) is None ==> plan(d, None, Some(BumpKind::Keep)) == Plan::Write(
            default_version(),
        ),
{
}

/// What to do with one parsed manifest.
pub enum Decision {
    /// Write the document, which now holds `version`.
    Write { doc: DocumentMut, version: String },
    /// Write nothing; `version` is the version it holds.
    Keep { version: String },
    /// A policy has to be asked for first.
    Ask,
}

/// What to do with one manifest file.
#[derive(Clone, Debug, PartialEq, Eq)]
pub enum Outcome {
    /// Write `text` over the file; it holds `version`.
    Write { text: String, version: String },
    /// Leave the file alone; `version` is the version it holds.
    Keep { version: String },
    /// A policy has to be asked for first.
    Ask,
}

pub open spec fn decision_follows(r: Result<Decision, VerctlError>, d: DocumentMut, p: Plan) -> bool {
    match p {
        Plan::Missing => r == Err::<Decision, VerctlError>(VerctlError::MissingSection),
        Plan::Ask => r matches Ok(Decision::Ask),
        Plan::Keep(v) => r matches Ok(Decision::Keep { version }) && version@ == v,
        Plan::Write(v) => r matches Ok(Decision::Write { doc, version }) && version@ == v
            && stored(doc, d, v),
    }
}

pub open spec fn outcome_follows(r: Result<Outcome, VerctlError>, d: DocumentMut, p: Plan) -> bool {
    match p {
        Plan::Missing => r == Err::<Outcome, VerctlError>(VerctlError::MissingSection),
        Plan::Ask => r == Ok::<Outcome, VerctlError>(Outcome::Ask),
        Plan::Keep(v) => r matches Ok(Outcome::Keep { version }) && version@ == v,
        Plan::Write(v) => r matches Ok(Outcome::Write { text, version }) && version@ == v
            && exists|e: DocumentMut| stored(e, d, v) && text@ == toml_text(e),
    }
}

/// The policy a typed answer asks for: `major`, `minor` and `none` name
/// theirs, and anything else means patch.
pub open spec fn policy_of_word(w: Seq<char>) -> BumpKind {
    if w == seq!['m', 'a', 'j', 'o', 'r'] {
        BumpKind::Major
    } else if w == seq!['m', 'i', 'n', 'o', 'r'] {
        BumpKind::Minor
    } else if w == seq!['n', 'o', 'n', 'e'] {
        BumpKind::Keep
    } else {
        BumpKind::Patch
    }
}

/// The policy a word names, as `policy_of_word` states it.
pub fn word_policy(w: &str) -> (r: BumpKind)
    ensures
        r == policy_of_word(w@),
{
    proof {
        reveal_strlit("major");
        reveal_strlit("minor");
        reveal_strlit("none");
        assert("major"@ =~= seq!['m', 'a', 'j', 'o', 'r']);
        assert("minor"@ =~= seq!['m', 'i', 'n', 'o', 'r']);
        assert("none"@ =~= seq!['n', 'o', 'n', 'e']);
    }
    if same_text(w, "major") {
        BumpKind::Major
    } else if same_text(w, "minor") {
        BumpKind::Minor
    } else if same_text(w, "none") {
        BumpKind::Keep
    } else {
        BumpKind::Patch
    }
}

/// The policy a line typed at the prompt asks for, read without surrounding
/// white space and without regard to case.
pub fn answer_policy(line: &str) -> (r: BumpKind)
    ensures
        r == policy_of_word(lowercased(trimmed(line@))),
{
    let t = trim_text(line);
    let l = lowercase_text(t.as_str());
    word_policy(l.as_str())
}

/// The policy in force, as `resolved_policy` states it.
pub fn resolve_policy(args: &Args, answer: Option<BumpKind>) -> (r: Option<BumpKind>)
    ensures
        r == resolved_policy(args.bump, args.auto, answer),
{
    match args.bump {
        Some(b) => Some(b),
        None => if args.auto {
            Some(BumpKind::Patch)
        } else {
            answer
        },
    }
}

/// Decides what to do with a parsed manifest and, where it is to be
/// written, stores the new version in it.
pub fn update_document(doc: DocumentMut, args: &Args, answer: Option<BumpKind>) -> (r: Result<
    Decision,
    VerctlError,
>)
    ensures
        decision_follows(
            r,
            doc,
            plan(doc, args.set.deep_view(), resolved_policy(args.bump, args.auto, answer)),
        ),
{
    let mut doc = doc;
    proof {
        reveal_strlit("version");
        reveal_strlit("0.1.0");
        assert("version"@ =~= version_key());
        assert("0.1.0"@ =~= default_version());
    }
    if !package_is_table(&doc) {
        return Err(VerctlError::MissingSection);
    }
    let found = package_string(&doc, "version");
    if let Some(v) = &args.set {
        set_package_version(&mut doc, v.as_str());
        return Ok(Decision::Write { doc, version: v.clone() });
    }
    let policy = resolve_policy(args, answer);
    match policy {
        None => Ok(Decision::Ask),
        Some(BumpKind::Keep) => {
            match found {
                Some(v) => Ok(Decision::Keep { version: v }),
                None => {
                    set_package_version(&mut doc, "0.1.0");
                    Ok(Decision::Write { doc, version: "0.1.0".to_string() })
                },
            }
        },
        Some(k) => {
            let current = match found {
                Some(v) => v,
                None => "0.1.0".to_string(),
            };
            let next = bump_version(current.as_str(), &k);
            set_package_version(&mut doc, next.as_str());
            Ok(Decision::Write { doc, version: next })
        },
    }
}

/// Handles the text of one manifest: parses it and decides what to write.
/// `answer` is the policy typed at the prompt, where one was asked for.
pub fn handle_single(args: &Args, text: &str, answer: Option<BumpKind>) -> (r: Result<
    Outcome,
    VerctlError,
>)
    ensures
        match toml_document(text@) {
            None => r == Err::<Outcome, VerctlError>(VerctlError::Parse),
            Some(d) => outcome_follows(
                r,
                d,
                plan(d, args.set.deep_view(), resolved_policy(args.bump, args.auto, answer)),
            ),
        },
{
    let doc = match parse_toml(text) {
        Ok(d) => d,
        Err(_) => return Err(VerctlError::Parse),
    };
    match update_document(doc, args, answer) {
        Err(e) => Err(e),
        Ok(Decision::Ask) => Ok(Outcome::Ask),
        Ok(Decision::Keep { version }) => Ok(Outcome::Keep { version }),
        Ok(Decision::Write { doc, version }) => {
            let text = render_toml(&doc);
            Ok(Outcome::Write { text, version })
        },
    }
}

/// The manifest text `t` shows package name `name` and version `version`,
/// with `unknown` and `missing` where it has none.
pub open spec fn described(t: Seq<char>, name: Seq<char>, version: Seq<char>) -> bool {
    match toml_document(t) {
        None => false,
        Some(d) => name == match package_field(d, name_key()) {
            Some(n) => n,
            None => seq!['u', 'n', 'k', 'n', 'o', 'w', 'n'],
        } && version == match package_field(d, version_key()) {
            Some(v) => v,
            None => seq!['m', 'i', 's', 's', 'i', 'n', 'g'],
        },
    }
}

/// The name and version a manifest shows, with `unknown` and `missing` where
/// it has none.
pub fn describe_manifest(text: &str) -> (r: Result<(String, String), VerctlError>)
    ensures
        match toml_document(text@) {
            None => r == Err::<(String, String), VerctlError>(VerctlError::Parse),
            Some(d) => r matches Ok(p) && described(text@, p.0@, p.1@),
        },
{
    proof {
        reveal_strlit("version");
        reveal_strlit("name");
        reveal_strlit("unknown");
        reveal_strlit("missing");
        assert("version"@ =~= version_key());
        assert("name"@ =~= name_key());
        assert("unknown"@ =~= seq!['u', 'n', 'k', 'n', 'o', 'w', 'n']);
        assert("missing"@ =~= seq!['m', 'i', 's', 's', 'i', 'n', 'g']);
    }
    let doc = match parse_toml(text) {
        Ok(d) => d,
        Err(_) => return Err(VerctlError::Parse),
    };
    let name = match package_string(&doc, "name") {
        Some(n) => n,
        None => "unknown".to_string(),
    };
    let version = match package_string(&doc, "version") {
        Some(v) => v,
        None => "missing".to_string(),
    };
    Ok((name, version))
}

} // verus!
