//! Workspaces: which member manifests there are, which of them a run
//! touches, and what it does to each.

use crate::manifest::{
    describe_manifest, described, handle_single, outcome_follows, plan, resolved_policy, Args,
    Outcome, VerctlError,
};
use crate::paths::{file_name, join_path, parent_path, path_file_name, path_joined, path_parent};
use crate::text::same_text;
use crate::toml::{
    has_top_key, member_entries, package_table, parse_toml, toml_document, top_key,
    workspace_member_entries,
};
use vstd::prelude::*;

verus! {

/// A manifest file as it stands on disk.
#[derive(Clone, Debug)]
pub struct ManifestFile {
    pub path: String,
    pub text: String,
}

/// What was decided for one workspace member.
#[derive(Clone, Debug)]
pub struct Handled {
    pub path: String,
    pub outcome: Outcome,
}

/// The text of the first file at path `p`, if there is one.
pub open spec fn file_text(files: Seq<ManifestFile>, p: Seq<char>) -> Option<Seq<char>>
    decreases files.len(),
{
    if files.len() == 0 {
        None
    } else if files[0].path@ == p {
        Some(files[0].text@)
    } else {
        file_text(files.drop_first(), p)
    }
}

pub open spec fn manifest_name() -> Seq<char> {
    seq!['C', 'a', 'r', 'g', 'o', '.', 't', 'o', 'm', 'l']
}

pub open spec fn workspace_key() -> Seq<char> {
    seq!['w', 'o', 'r', 'k', 's', 'p', 'a', 'c', 'e']
}

/// The directory a member entry names; an entry that is not a string names
/// the empty path.
pub open spec fn entry_dir(e: Option<Seq<char>>) -> Seq<char> {
    match e {
        Some(s) => s,
        None => Seq::<char>::empty(),
    }
}

/// The manifest of the member at `rel`, beside the workspace manifest `root`.
pub open spec fn member_manifest(root: Seq<char>, rel: Seq<char>) -> Seq<char> {
    let base = match path_parent(root) {
        Some(p) => p,
        None => seq!['.'],
    };
    path_joined(path_joined(base, rel), manifest_name())
}

/// The manifests that the entries of `workspace.members` point to.
pub open spec fn candidates(root: Seq<char>, entries: Seq<Option<Seq<char>>>) -> Seq<Seq<char>> {
    entries.map_values(|e: Option<Seq<char>>| member_manifest(root, entry_dir(e)))
}

/// Those of `cs` that exist among `files`, in order.
pub open spec fn existing(cs: Seq<Seq<char>>, files: Seq<ManifestFile>) -> Seq<Seq<char>>
    decreases cs.len(),
{
    if cs.len() == 0 {
        Seq::empty()
    } else {
        let prev = existing(cs.drop_last(), files);
        if file_text(files, cs.last()) is Some {
            prev.push(cs.last())
        } else {
            prev
        }
    }
}

/// The name of the directory that holds a member manifest, or empty.
pub open spec fn member_dir(m: Seq<char>) -> Seq<char> {
    match path_parent(m) {
        Some(p) => match path_file_name(p) {
            Some(n) => n,
            None => Seq::<char>::empty(),
        },
        None => Seq::<char>::empty(),
    }
}

pub open spec fn passes(m: Seq<char>, only: Option<Seq<char>>) -> bool {
    match only {
        Some(x) => member_dir(m) == x,
        None => true,
    }
}

/// Those of `ms` that the filter lets through, in order.
pub open spec fn selected(ms: Seq<Seq<char>>, only: Option<Seq<char>>) -> Seq<Seq<char>>
    decreases ms.len(),
{
    if ms.len() == 0 {
        Seq::empty()
    } else {
        let prev = selected(ms.drop_last(), only);
        if passes(ms.last(), only) {
            prev.push(ms.last())
        } else {
            prev
        }
    }
}

/// The member manifests of the workspace at `root` that exist among `files`.
pub open spec fn members_of(root: Seq<char>, files: Seq<ManifestFile>) -> Result<
    Seq<Seq<char>>,
    VerctlError,
> {
    match file_text(files, root) {
        None => Err(VerctlError::NotFound),
        Some(t) => match toml_document(t) {
            None => Err(VerctlError::Parse),
            Some(d) => Ok(existing(candidates(root, member_entries(d)), files)),
        },
    }
}

/// The members a run with filter `only` touches.
pub open spec fn targets_of(root: Seq<char>, files: Seq<ManifestFile>, only: Option<Seq<char>>) -> Result<
    Seq<Seq<char>>,
    VerctlError,
> {
    match members_of(root, files) {
        Err(e) => Err(e),
        Ok(ms) => Ok(selected(ms, only)),
    }
}

/// The error handling a manifest text fails with, if it does.
pub open spec fn single_failure(text: Seq<char>) -> Option<VerctlError> {
    match toml_document(text) {
        None => Some(VerctlError::Parse),
        Some(d) => if package_table(d) {
            None
        } else {
            Some(VerctlError::MissingSection)
        },
    }
}

/// `o` is what handling manifest text `t` with `args` and no answer gives.
pub open spec fn single_outcome(args: Args, t: Seq<char>, o: Outcome) -> bool {
    match toml_document(t) {
        None => false,
        Some(d) => outcome_follows(
            Ok(o),
            d,
            plan(d, args.set.deep_view(), resolved_policy(args.bump, args.auto, None)),
        ),
    }
}

/// The text of the file at a path, where the path is among the files.
pub open spec fn text_at(files: Seq<ManifestFile>, p: Seq<char>) -> Seq<char> {
    match file_text(files, p) {
        Some(t) => t,
        None => Seq::<char>::empty(),
    }
}

/// Finds the first file at path `p`.
pub fn find_file(files: &Vec<ManifestFile>, p: &str) -> (r: Option<usize>)
    ensures
        match file_text(files@, p@) {
            None => r is None,
            Some(t) => r matches Some(i) && i < files@.len() && files@[i as int].text@ == t,
        },
{
    let mut i: usize = 0;
    assert(files@.subrange(0, files@.len() as int) =~= files@);
    while i < files.len()
        invariant
            i <= files@.len(),
            file_text(files@, p@) == file_text(files@.subrange(i as int, files@.len() as int), p@),
        decreases files@.len() - i,
    {
        let ghost rest = files@.subrange(i as int, files@.len() as int);
        assert(rest.drop_first() =~= files@.subrange(i + 1, files@.len() as int));
        if same_text(files[i].path.as_str(), p) {
            return Some(i);
        }
        i = i + 1;
    }
    assert(files@.subrange(i as int, files@.len() as int).len() == 0);
    None
}

/// Whether the manifest at `root` is a workspace: whether its top level
/// holds `workspace`.
pub fn is_workspace(root: &str, files: &Vec<ManifestFile>) -> (r: Result<bool, VerctlError>)
    ensures
        match file_text(files@, root@) {
            None => r == Err::<bool, VerctlError>(VerctlError::NotFound),
            Some(t) => match toml_document(t) {
                None => r == Err::<bool, VerctlError>(VerctlError::Parse),
                Some(d) => r == Ok::<bool, VerctlError>(top_key(d, workspace_key())),
            },
        },
{
    let i = match find_file(files, root) {
        Some(i) => i,
        None => return Err(VerctlError::NotFound),
    };
    let doc = match parse_toml(files[i].text.as_str()) {
        Ok(d) => d,
        Err(_) => return Err(VerctlError::Parse),
    };
    proof {
        reveal_strlit("workspace");
        assert("workspace"@ =~= workspace_key());
    }
    Ok(has_top_key(&doc, "workspace"))
}

/// The manifest paths that the workspace manifest `root`, with text
/// `root_text`, lists as members, whether or not they exist.
pub fn member_candidates(root: &str, root_text: &str) -> (r: Result<Vec<String>, VerctlError>)
    ensures
        match toml_document(root_text@) {
            None => r == Err::<Vec<String>, VerctlError>(VerctlError::Parse),
            Some(d) => r matches Ok(v) && v.deep_view() == candidates(root@, member_entries(d)),
        },
{
    let doc = match parse_toml(root_text) {
        Ok(d) => d,
        Err(_) => return Err(VerctlError::Parse),
    };
    let entries = workspace_member_entries(&doc);
    let base = match parent_path(root) {
        Some(p) => p,
        None => ".".to_string(),
    };
    proof {
        reveal_strlit(".");
        reveal_strlit("Cargo.toml");
        assert("."@ =~= seq!['.']);
        assert("Cargo.toml"@ =~= manifest_name());
    }
    let ghost es = member_entries(doc);
    let mut out: Vec<String> = Vec::new();
    let mut i: usize = 0;
    while i < entries.len()
        invariant
            i <= entries@.len(),
            entries.deep_view() == es,
            base@ == match path_parent(root@) {
                Some(p) => p,
                None => seq!['.'],
            },
            out.deep_view() =~= candidates(root@, es).take(i as int),
        decreases entries@.len() - i,
    {
        let rel = match &entries[i] {
            Some(s) => s.clone(),
            None => String::new(),
        };
        proof {
            assert(entries.deep_view()[i as int] == entries@[i as int].deep_view());
        }
        let dir = join_path(base.as_str(), rel.as_str());
        let m = join_path(dir.as_str(), "Cargo.toml");
        proof {
            reveal_strlit("Cargo.toml");
            assert("Cargo.toml"@ =~= manifest_name());
        }
        let ghost before = out.deep_view();
        assert(rel@ == entry_dir(es[i as int]));
        assert(es.len() == entries@.len());
        assert(m@ == member_manifest(root@, entry_dir(es[i as int])));
        assert(candidates(root@, es)[i as int] == m@);
        out.push(m);
        assert(out.deep_view() =~= before.push(m@));
        i = i + 1;
        proof {
            assert(candidates(root@, es).take(i as int) =~= candidates(root@, es).take(
                i - 1,
            ).push(member_manifest(root@, entry_dir(es[i - 1]))));
        }
    }
    assert(candidates(root@, es).take(i as int) =~= candidates(root@, es));
    Ok(out)
}

proof fn lemma_push_contains(s: Seq<Seq<char>>, x: Seq<char>, m: Seq<char>)
    ensures
        s.push(x).contains(m) <==> (s.contains(m) || m == x),
{
    if s.push(x).contains(m) {
        let i = choose|i: int| 0 <= i < s.push(x).len() && s.push(x)[i] == m;
        if i < s.len() {
            assert(s[i] == m);
        }
    }
    if s.contains(m) {
        let i = choose|i: int| 0 <= i < s.len() && s[i] == m;
        assert(s.push(x)[i] == m);
    }
    if m == x {
        assert(s.push(x)[s.len() as int] == x);
    }
}

/// A listed member is kept exactly when its manifest exists.
proof fn lemma_existing_contains(cs: Seq<Seq<char>>, files: Seq<ManifestFile>, m: Seq<char>)
    ensures
        existing(cs, files).contains(m) <==> (cs.contains(m) && file_text(files, m) is Some),
    decreases cs.len(),
{
    if cs.len() == 0 {
        assert(!cs.contains(m));
        assert(!existing(cs, files).contains(m));
    } else {
        let cd = cs.drop_last();
        lemma_existing_contains(cd, files, m);
        assert(cs =~= cd.push(cs.last()));
        lemma_push_contains(cd, cs.last(), m);
        lemma_push_contains(existing(cd, files), cs.last(), m);
    }
}

/// A member is selected exactly when it passes the filter.
proof fn lemma_selected_contains(ms: Seq<Seq<char>>, only: Option<Seq<char>>, m: Seq<char>)
    ensures
        selected(ms, only).contains(m) <==> (ms.contains(m) && passes(m, only)),
    decreases ms.len(),
{
    if ms.len() == 0 {
        assert(!ms.contains(m));
        assert(!selected(ms, only).contains(m));
    } else {
        let md = ms.drop_last();
        lemma_selected_contains(md, only, m);
        assert(ms =~= md.push(ms.last()));
        lemma_push_contains(md, ms.last(), m);
        lemma_push_contains(selected(md, only), ms.last(), m);
    }
}

proof fn lemma_selected_all(ms: Seq<Seq<char>>)
    ensures
        selected(ms, None) == ms,
    decreases ms.len(),
{
    if ms.len() > 0 {
        lemma_selected_all(ms.drop_last());
        assert(ms.drop_last().push(ms.last()) =~= ms);
    } else {
        assert(ms =~= Seq::<Seq<char>>::empty());
    }
}

/// How many of `cs` exist among `files`.
pub open spec fn present_count(cs: Seq<Seq<char>>, files: Seq<ManifestFile>) -> nat
    decreases cs.len(),
{
    if cs.len() == 0 {
        0
    } else if file_text(files, cs.last()) is Some {
        present_count(cs.drop_last(), files) + 1
    } else {
        present_count(cs.drop_last(), files)
    }
}

proof fn lemma_existing_len(cs: Seq<Seq<char>>, files: Seq<ManifestFile>)
    ensures
        existing(cs, files).len() == present_count(cs, files),
    decreases cs.len(),
{
    if cs.len() > 0 {
        lemma_existing_len(cs.drop_last(), files);
    }
}

/// With `--only x`, the members touched are exactly the listed, existing
/// members whose manifest lies in a directory named `x`; with no filter,
/// every listed, existing member is touched.
pub proof fn lemma_only_touches_named(ms: Seq<Seq<char>>, x: Seq<char>, m: Seq<char>)
    ensures
        selected(ms, Some(x)).contains(m) <==> (ms.contains(m) && member_dir(m) == x),
        selected(ms, None) == ms,
{
    lemma_selected_contains(ms, Some(x), m);
    lemma_selected_all(ms);
}

/// A listed member whose manifest does not exist is skipped and no error
/// comes of it: of the members a workspace lists, exactly those whose
/// manifest exists are kept, as many as there are such manifests.
pub proof fn lemma_missing_members_skipped(
    cs: Seq<Seq<char>>,
    files: Seq<ManifestFile>,
    m: Seq<char>,
)
    ensures
        existing(cs, files).contains(m) <==> (cs.contains(m) && file_text(files, m) is Some),
        existing(cs, files).len() == present_count(cs, files),
{
    lemma_existing_contains(cs, files, m);
    lemma_existing_len(cs, files);
}

/// The member manifests of the workspace at `root` that exist among
/// `files`, in the order they are listed.
pub fn workspace_members(root: &str, files: &Vec<ManifestFile>) -> (r: Result<
    Vec<String>,
    VerctlError,
>)
    ensures
        match members_of(root@, files@) {
            Err(e) => r == Err::<Vec<String>, VerctlError>(e),
            Ok(ms) => r matches Ok(v) && v.deep_view() == ms,
        },
{
    let k = match find_file(files, root) {
        Some(k) => k,
        None => return Err(VerctlError::NotFound),
    };
    let cands = match member_candidates(root, files[k].text.as_str()) {
        Ok(c) => c,
        Err(e) => return Err(e),
    };
    let ghost cs = cands.deep_view();
    let mut out: Vec<String> = Vec::new();
    let mut j: usize = 0;
    while j < cands.len()
        invariant
            j <= cands@.len(),
            cs == cands.deep_view(),
            out.deep_view() == existing(cs.take(j as int), files@),
        decreases cands@.len() - j,
    {
        assert(cs.take(j + 1).drop_last() =~= cs.take(j as int));
        assert(cs.take(j + 1).last() == cands@[j as int]@);
        if find_file(files, cands[j].as_str()).is_some() {
            let ghost before = out.deep_view();
            out.push(cands[j].clone());
            assert(out.deep_view() =~= before.push(cands@[j as int]@));
        }
        j = j + 1;
    }
    assert(cs.take(j as int) =~= cs);
    Ok(out)
}

/// The name of the directory that holds a member manifest, or empty.
pub fn member_dir_name(m: &str) -> (r: String)
    ensures
        r@ == member_dir(m@),
{
    match parent_path(m) {
        Some(p) => match file_name(p.as_str()) {
            Some(n) => n,
            None => String::new(),
        },
        None => String::new(),
    }
}

/// The members a run touches: those that exist, and with `only` set, those
/// of them in a directory of that name.
pub fn workspace_targets(args: &Args, root: &str, files: &Vec<ManifestFile>) -> (r: Result<
    Vec<String>,
    VerctlError,
>)
    ensures
        match targets_of(root@, files@, args.only.deep_view()) {
            Err(e) => r == Err::<Vec<String>, VerctlError>(e),
            Ok(ts) => r matches Ok(v) && v.deep_view() == ts,
        },
{
    let ms = match workspace_members(root, files) {
        Ok(ms) => ms,
        Err(e) => return Err(e),
    };
    let ghost msv = ms.deep_view();
    let ghost only = args.only.deep_view();
    let mut out: Vec<String> = Vec::new();
    let mut j: usize = 0;
    while j < ms.len()
        invariant
            j <= ms@.len(),
            msv == ms.deep_view(),
            only == args.only.deep_view(),
            out.deep_view() == selected(msv.take(j as int), only),
        decreases ms@.len() - j,
    {
        assert(msv.take(j + 1).drop_last() =~= msv.take(j as int));
        assert(msv.take(j + 1).last() == ms@[j as int]@);
        let keep = match &args.only {
            Some(x) => {
                let d = member_dir_name(ms[j].as_str());
                same_text(d.as_str(), x.as_str())
            },
            None => true,
        };
        if keep {
            let ghost before = out.deep_view();
            out.push(ms[j].clone());
            assert(out.deep_view() =~= before.push(ms@[j as int]@));
        }
        j = j + 1;
    }
    assert(msv.take(j as int) =~= msv);
    Ok(out)
}

/// Handles every member a run touches, in order, and stops at the first that
/// fails. Nothing is asked at a prompt here: a member that needs a policy
/// comes back as `Outcome::Ask`.
pub fn handle_workspace_default(args: &Args, root: &str, files: &Vec<ManifestFile>) -> (r: Result<
    Vec<Handled>,
    VerctlError,
>)
    ensures
        match targets_of(root@, files@, args.only.deep_view()) {
            Err(e) => r == Err::<Vec<Handled>, VerctlError>(e),
            Ok(ts) => match r {
                Ok(v) => v@.len() == ts.len() && forall|i: int|
                    0 <= i < ts.len() ==> (#[trigger] v@[i]).path@ == ts[i] && single_outcome(
                        *args,
                        text_at(files@, ts[i]),
                        v@[i].outcome,
                    ),
                Err(e) => exists|i: int|
                    0 <= i < ts.len() && single_failure(text_at(files@, #[trigger] ts[i])) == Some(e)
                        && forall|j: int|
                        0 <= j < i ==> single_failure(text_at(files@, #[trigger] ts[j])) is None,
            },
        },
{
    let ts = match workspace_targets(args, root, files) {
        Ok(ts) => ts,
        Err(e) => return Err(e),
    };
    let ghost tsv = ts.deep_view();
    let ghost ms = members_of(root@, files@)->Ok_0;
    let mut out: Vec<Handled> = Vec::new();
    let mut j: usize = 0;
    while j < ts.len()
        invariant
            j <= ts@.len(),
            tsv == ts.deep_view(),
            members_of(root@, files@) is Ok,
            ms == members_of(root@, files@)->Ok_0,
            tsv == selected(ms, args.only.deep_view()),
            targets_of(root@, files@, args.only.deep_view()) == Ok::<Seq<Seq<char>>, VerctlError>(tsv),
            out@.len() == j,
            forall|i: int|
                0 <= i < j ==> (#[trigger] out@[i]).path@ == tsv[i] && single_outcome(
                    *args,
                    text_at(files@, tsv[i]),
                    out@[i].outcome,
                ),
            forall|i: int| 0 <= i < j ==> single_failure(text_at(files@, #[trigger] tsv[i])) is None,
        decreases ts@.len() - j,
    {
        let ghost m = tsv[j as int];
        proof {
            assert(tsv[j as int] == ts@[j as int]@);
            assert(tsv.contains(m));
            lemma_selected_contains(ms, args.only.deep_view(), m);
            let t = file_text(files@, root@).unwrap();
            let d = toml_document(t).unwrap();
            assert(ms == existing(candidates(root@, member_entries(d)), files@));
            lemma_existing_contains(candidates(root@, member_entries(d)), files@, m);
            assert(file_text(files@, m) is Some);
        }
        let k = match find_file(files, ts[j].as_str()) {
            Some(k) => k,
            None => {
                assert(false);
                return Err(VerctlError::NotFound);
            },
        };
        let o = match handle_single(args, files[k].text.as_str(), None) {
            Ok(o) => o,
            Err(e) => {
                assert(text_at(files@, m) == files@[k as int].text@);
                assert(single_failure(text_at(files@, tsv[j as int])) == Some(e));
                let ghost ts2 = targets_of(root@, files@, args.only.deep_view())->Ok_0;
                assert(ts2 == tsv);
                assert(exists|i: int|
                    0 <= i < ts2.len() && single_failure(text_at(files@, #[trigger] ts2[i])) == Some(e)
                        && forall|jj: int|
                        0 <= jj < i ==> single_failure(text_at(files@, #[trigger] ts2[jj])) is None);
                return Err(e);
            },
        };
        out.push(Handled { path: ts[j].clone(), outcome: o });
        j = j + 1;
    }
    Ok(out)
}

/// The package names and versions to report: one for each existing member
/// of a workspace, or the manifest's own where it is no workspace.
pub fn list_versions(root: &str, files: &Vec<ManifestFile>) -> (r: Result<
    Vec<(String, String)>,
    VerctlError,
>)
    ensures
        match file_text(files@, root@) {
            None => r == Err::<Vec<(String, String)>, VerctlError>(VerctlError::NotFound),
            Some(t) => match toml_document(t) {
                None => r == Err::<Vec<(String, String)>, VerctlError>(VerctlError::Parse),
                Some(d) => if top_key(d, workspace_key()) {
                    let ms = members_of(root@, files@)->Ok_0;
                    match r {
                        Ok(v) => v@.len() == ms.len() && forall|i: int|
                            0 <= i < ms.len() ==> described(
                                text_at(files@, ms[i]),
                                (#[trigger] v@[i]).0@,
                                v@[i].1@,
                            ),
                        Err(e) => e == VerctlError::Parse && exists|i: int|
                            0 <= i < ms.len() && toml_document(text_at(files@, #[trigger] ms[i])) is None,
                    }
                } else {
                    r matches Ok(v) && v@.len() == 1 && described(t, v@[0].0@, v@[0].1@)
                },
            },
        },
{
    let ws = match is_workspace(root, files) {
        Ok(b) => b,
        Err(e) => return Err(e),
    };
    let mut out: Vec<(String, String)> = Vec::new();
    if !ws {
        let k = match find_file(files, root) {
            Some(k) => k,
            None => return Err(VerctlError::NotFound),
        };
        match describe_manifest(files[k].text.as_str()) {
            Ok(p) => out.push(p),
            Err(e) => return Err(e),
        }
        return Ok(out);
    }
    let ms = match workspace_members(root, files) {
        Ok(ms) => ms,
        Err(e) => return Err(e),
    };
    let ghost msv = ms.deep_view();
    let ghost d = toml_document(text_at(files@, root@)).unwrap();
    let mut j: usize = 0;
    while j < ms.len()
        invariant
            j <= ms@.len(),
            msv == ms.deep_view(),
            msv == existing(candidates(root@, member_entries(d)), files@),
            msv == members_of(root@, files@)->Ok_0,
            file_text(files@, root@) is Some,
            toml_document(text_at(files@, root@)) == Some(d),
            top_key(d, workspace_key()),
            out@.len() == j,
            forall|i: int|
                0 <= i < j ==> described(text_at(files@, msv[i]), (#[trigger] out@[i]).0@, out@[i].1@),
        decreases ms@.len() - j,
    {
        let ghost m = msv[j as int];
        proof {
            assert(msv[j as int] == ms@[j as int]@);
            assert(msv.contains(m));
            lemma_existing_contains(candidates(root@, member_entries(d)), files@, m);
        }
        let k = match find_file(files, ms[j].as_str()) {
            Some(k) => k,
            None => {
                assert(false);
                return Err(VerctlError::NotFound);
            },
        };
        match describe_manifest(files[k].text.as_str()) {
            Ok(p) => out.push(p),
            Err(e) => {
                assert(text_at(files@, m) == files@[k as int].text@);
                assert(toml_document(text_at(files@, msv[j as int])) is None);
                assert(exists|i: int|
                    0 <= i < msv.len() && toml_document(text_at(files@, #[trigger] msv[i])) is None);
                return Err(e);
            },
        }
        j = j + 1;
    }
    Ok(out)
}

} // verus!
