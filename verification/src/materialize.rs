//! Orchestration of a generation request: resolve, validate, stage, commit.
//!
//! Staging is pure: every file's content and relative path are rendered into
//! a private [`StagingArea`] owned by the one request, with no effect on the
//! target. Committing is modelled on [`TargetState`], the engine's view of
//! the target directory: the staged tree replaces the target's contents as
//! one step, after the conflict policy is checked — so a failing request
//! leaves the target exactly as it was, which is the atomicity law. A caller
//! that performs real file-system writes mirrors this model: write the staged
//! tree beside the target, then promote it with one rename, and on any
//! failure discard the staging artifacts and report the error unchanged.

use vstd::prelude::*;

use crate::catalog::Catalog;
use crate::catalog::FileEntry;
use crate::catalog::TemplateDescriptor;
use crate::catalog::catalog_wf;
use crate::catalog::find_key;
use crate::catalog::template_wf;
use crate::context::Binding;
use crate::context::raw_lookup;
use crate::digest::fnv64;
use crate::digest::fnv64_digest;
use crate::errors::ErrorModel;
use crate::errors::GenError;
use crate::render::render;
use crate::render::rendered;
use crate::text::bytes_eq;
use crate::text::copy_bytes;
use crate::validate::first_bad;
use crate::validate::lemma_first_bad_finds;
use crate::validate::schema_ctx;
use crate::validate::validate;
use crate::validate::validate_err;
use crate::validate::var_fails;

verus! {

/// One rendered file of a staging area.
pub struct RenderedFile {
    pub rel_path: Vec<u8>,
    pub content: Vec<u8>,
}

/// The private, uncommitted working copy of one request's rendered project.
pub struct StagingArea {
    pub files: Vec<RenderedFile>,
}

/// The rendered files as pairs of (relative path, content) byte sequences.
pub open spec fn staged_view(files: Seq<RenderedFile>) -> Seq<(Seq<u8>, Seq<u8>)> {
    files.map_values(|f: RenderedFile| (f.rel_path@, f.content@))
}

/// What rendering one template file against context `m` yields: the rendered
/// (path, content) pair, or the identifier of the first unbound token.
/// Binary content is copied verbatim; its path is still rendered.
pub open spec fn entry_render(e: FileEntry, m: Map<Seq<u8>, Seq<u8>>) -> Result<
    (Seq<u8>, Seq<u8>),
    Seq<u8>,
> {
    match rendered(e.rel_path@, m) {
        Err(id) => Err(id),
        Ok(p) => if e.binary {
            Ok((p, e.content@))
        } else {
            match rendered(e.content@, m) {
                Err(id) => Err(id),
                Ok(c) => Ok((p, c)),
            }
        },
    }
}

/// The first template file at or after `i` whose rendering fails.
pub open spec fn stage_err_from(entries: Seq<FileEntry>, i: int, m: Map<Seq<u8>, Seq<u8>>) -> Option<
    int,
>
    decreases entries.len() - i,
    when 0 <= i <= entries.len()
{
    if i >= entries.len() {
        None
    } else if entry_render(entries[i], m) is Err {
        Some(i)
    } else {
        stage_err_from(entries, i + 1, m)
    }
}

/// The rendered (path, content) pairs of the first `i` template files, in
/// template order; meaningful when none of them fails.
pub open spec fn staged_prefix(entries: Seq<FileEntry>, i: int, m: Map<Seq<u8>, Seq<u8>>) -> Seq<
    (Seq<u8>, Seq<u8>),
>
    decreases i,
{
    if i <= 0 {
        Seq::empty()
    } else {
        staged_prefix(entries, i - 1, m).push(entry_render(entries[i - 1], m)->Ok_0)
    }
}

/// The first staged file at or after `j` whose rendered path collides with an
/// earlier one.
pub open spec fn first_dup_from(files: Seq<(Seq<u8>, Seq<u8>)>, j: int) -> Option<int>
    decreases files.len() - j,
    when 0 <= j <= files.len()
{
    if j >= files.len() {
        None
    } else if exists|k: int| 0 <= k < j && (#[trigger] files[k]).0 == files[j].0 {
        Some(j)
    } else {
        first_dup_from(files, j + 1)
    }
}

/// The outcome a generation request denotes, before any commit: the staged
/// (path, content) pairs in template order, or the error of the first step
/// that fails. Resolution, validation, staging and the rendered-path
/// collision check happen in that order; the result is a function of the
/// catalog, the key and the bindings alone.
pub open spec fn generate_spec(
    ts: Seq<TemplateDescriptor>,
    key: Seq<u8>,
    bs: Seq<Binding>,
) -> Result<Seq<(Seq<u8>, Seq<u8>)>, ErrorModel> {
    match find_key(ts, key) {
        None => Err(ErrorModel::TemplateNotFound(key)),
        Some(ti) => {
            let t = ts[ti];
            match first_bad(t.schema@, bs) {
                Some(j) => Err(validate_err(t.schema@, j, bs)),
                None => {
                    let m = schema_ctx(t.schema@, bs);
                    match stage_err_from(t.entries@, 0, m) {
                        Some(j) => Err(
                            ErrorModel::UndefinedVariable(
                                entry_render(t.entries@[j], m)->Err_0,
                                t.entries@[j].rel_path@,
                            ),
                        ),
                        None => {
                            let files = staged_prefix(t.entries@, t.entries@.len() as int, m);
                            match first_dup_from(files, 0) {
                                Some(j) => Err(ErrorModel::FileConflict(files[j].0)),
                                None => Ok(files),
                            }
                        },
                    }
                },
            }
        },
    }
}

/// Law: determinism of generation — the staged files and the manifest are a
/// function of the catalog, the template key and the bindings alone, so one
/// request rendered twice (into two fresh targets) yields identical results.
pub proof fn lemma_generation_deterministic(
    ts1: Seq<TemplateDescriptor>,
    key1: Seq<u8>,
    bs1: Seq<Binding>,
    ts2: Seq<TemplateDescriptor>,
    key2: Seq<u8>,
    bs2: Seq<Binding>,
)
    requires
        ts1 == ts2,
        key1 == key2,
        bs1 == bs2,
    ensures
        generate_spec(ts1, key1, bs1) == generate_spec(ts2, key2, bs2),
{
}

proof fn lemma_no_dup_pairwise(files: Seq<(Seq<u8>, Seq<u8>)>, j: int)
    requires
        0 <= j <= files.len(),
        first_dup_from(files, j) is None,
    ensures
        forall|a: int, b: int|
            0 <= a < b < files.len() && j <= b ==> (#[trigger] files[a]).0 != (
            #[trigger] files[b]).0,
    decreases files.len() - j,
{
    if j < files.len() {
        lemma_no_dup_pairwise(files, j + 1);
    }
}

/// Law: manifest integrity — a successful generation stages no two files
/// under one rendered path, so the committed tree and its manifest hold each
/// relative path once.
pub proof fn lemma_staged_paths_unique(ts: Seq<TemplateDescriptor>, key: Seq<u8>, bs: Seq<Binding>)
    requires
        generate_spec(ts, key, bs) is Ok,
    ensures
        forall|a: int, b: int|
            0 <= a < b < generate_spec(ts, key, bs)->Ok_0.len() ==> (#[trigger] generate_spec(
                ts,
                key,
                bs,
            )->Ok_0[a]).0 != (#[trigger] generate_spec(ts, key, bs)->Ok_0[b]).0,
{
    let files = generate_spec(ts, key, bs)->Ok_0;
    lemma_no_dup_pairwise(files, 0);
}

/// Law: validation completeness — a required variable with neither a supplied
/// value nor a default makes the whole request fail; when it is the first
/// failing variable, the error names it as missing. (The atomicity clause of
/// [`materialize`] adds that a failing request performs no write at all.)
pub proof fn lemma_missing_required_fails(
    ts: Seq<TemplateDescriptor>,
    key: Seq<u8>,
    bs: Seq<Binding>,
    j: int,
)
    requires
        find_key(ts, key) is Some,
        0 <= j < ts[find_key(ts, key)->Some_0].schema@.len(),
        ts[find_key(ts, key)->Some_0].schema@[j].required,
        ts[find_key(ts, key)->Some_0].schema@[j].default is None,
        raw_lookup(bs, ts[find_key(ts, key)->Some_0].schema@[j].name@) is None,
    ensures
        generate_spec(ts, key, bs) is Err,
        (forall|k: int|
            0 <= k < j ==> !var_fails(#[trigger] ts[find_key(ts, key)->Some_0].schema@[k], bs))
            ==> generate_spec(ts, key, bs) == Err::<Seq<(Seq<u8>, Seq<u8>)>, ErrorModel>(
            ErrorModel::MissingRequiredVariable(ts[find_key(ts, key)->Some_0].schema@[j].name@),
        ),
{
    let ti = find_key(ts, key)->Some_0;
    let schema = ts[ti].schema@;
    assert(var_fails(schema[j], bs));
    lemma_first_bad_finds(schema, 0, j, bs);
    let k = first_bad(schema, bs)->Some_0;
    crate::validate::lemma_first_bad_from(schema, 0, bs);
    if forall|k2: int| 0 <= k2 < j ==> !var_fails(#[trigger] schema[k2], bs) {
        assert(var_fails(schema[k], bs));
        assert(k == j);
    }
}

/// One line of a manifest: a written file's relative path, byte size, and
/// content digest.
pub struct ManifestEntry {
    pub rel_path: Vec<u8>,
    pub size: usize,
    pub digest: u64,
}

impl View for ManifestEntry {
    type V = (Seq<u8>, int, u64);

    open spec fn view(&self) -> (Seq<u8>, int, u64) {
        (self.rel_path@, self.size as int, self.digest)
    }
}

/// The result of a successful materialization: the target root and the
/// ordered manifest of every written file.
pub struct GeneratedProject {
    pub target: Vec<u8>,
    pub entries: Vec<ManifestEntry>,
}

/// The manifest a staged tree denotes: path, size and digest of each file.
pub open spec fn manifest_spec(files: Seq<(Seq<u8>, Seq<u8>)>) -> Seq<(Seq<u8>, int, u64)> {
    files.map_values(|f: (Seq<u8>, Seq<u8>)| (f.0, f.1.len() as int, fnv64(f.1)))
}

/// The manifest a generated project carries.
pub open spec fn manifest_view(g: GeneratedProject) -> Seq<(Seq<u8>, int, u64)> {
    g.entries@.map_values(|e: ManifestEntry| e@)
}

/// Caller-selected behaviour when the target already holds content.
#[derive(Clone, Copy, PartialEq, Eq, Structural, Debug)]
pub enum ConflictPolicy {
    /// Fail with a conflict; the target is untouched.
    Abort,
    /// Replace the target's contents with the fresh render.
    Overwrite,
}

/// The engine's model of the target path: whether it exists, and the
/// (relative path, content) files under it. A caller doing real file-system
/// writes keeps one of these in step with the disk; the engine's commit
/// semantics and its atomicity and conflict laws are stated on this model.
pub struct TargetState {
    pub exists: bool,
    pub files: Vec<(Vec<u8>, Vec<u8>)>,
}

/// Byte-pair view of stored files.
pub open spec fn pairs_view(s: Seq<(Vec<u8>, Vec<u8>)>) -> Seq<(Seq<u8>, Seq<u8>)> {
    s.map_values(|p: (Vec<u8>, Vec<u8>)| (p.0@, p.1@))
}

impl View for TargetState {
    type V = (bool, Seq<(Seq<u8>, Seq<u8>)>);

    open spec fn view(&self) -> (bool, Seq<(Seq<u8>, Seq<u8>)>) {
        (self.exists, pairs_view(self.files@))
    }
}

/// The conflict policy blocks committing over this target.
pub open spec fn commit_blocked(t: (bool, Seq<(Seq<u8>, Seq<u8>)>), policy: ConflictPolicy) -> bool {
    t.0 && t.1.len() > 0 && policy == ConflictPolicy::Abort
}

/// Resolves, validates and stages one request, touching no target: returns
/// the fully rendered tree, or the error of the first failing step, exactly
/// as [`generate_spec`] says.
#[verifier::loop_isolation(false)]
pub fn generate(catalog: &Catalog, key: &Vec<u8>, bindings: &Vec<Binding>) -> (r: Result<
    StagingArea,
    GenError,
>)
    requires
        catalog.wf(),
    ensures
        r matches Ok(s) ==> (generate_spec(catalog.templates@, key@, bindings@) matches Ok(files)
            && staged_view(s.files@) == files),
        r matches Err(e) ==> (generate_spec(catalog.templates@, key@, bindings@) matches Err(ge)
            && e@ == ge),
{
    let tpl = match catalog.resolve(key) {
        Ok(t) => t,
        Err(e) => {
            return Err(e);
        },
    };
    let ghost ti = find_key(catalog.templates@, key@)->Some_0;
    proof {
        crate::catalog::lemma_find_key_from(catalog.templates@, 0, key@);
        assert(catalog_wf(catalog.templates@));
        assert(template_wf(catalog.templates@[ti]));
    }
    let ctx = match validate(&tpl.schema, bindings) {
        Ok(c) => c,
        Err(e) => {
            proof {
                let j = first_bad(tpl.schema@, bindings@)->Some_0;
                assert(e@ == validate_err(tpl.schema@, j, bindings@));
            }
            return Err(e);
        },
    };
    let ghost m = schema_ctx(tpl.schema@, bindings@);
    let mut files: Vec<RenderedFile> = Vec::new();
    let mut i: usize = 0;
    while i < tpl.entries.len()
        invariant
            i <= tpl.entries@.len(),
            ctx@ == m,
            stage_err_from(tpl.entries@, 0, m) == stage_err_from(tpl.entries@, i as int, m),
            staged_view(files@) == staged_prefix(tpl.entries@, i as int, m),
        decreases tpl.entries@.len() - i,
    {
        let e = &tpl.entries[i];
        let p = match render(&e.rel_path, &ctx) {
            Ok(p) => p,
            Err(id) => {
                proof {
                    assert(entry_render(tpl.entries@[i as int], m) is Err);
                }
                return Err(
                    GenError::UndefinedVariable { name: id, path: copy_bytes(&e.rel_path) },
                );
            },
        };
        let c = if e.binary {
            copy_bytes(&e.content)
        } else {
            match render(&e.content, &ctx) {
                Ok(c) => c,
                Err(id) => {
                    proof {
                        assert(entry_render(tpl.entries@[i as int], m) is Err);
                    }
                    return Err(
                        GenError::UndefinedVariable { name: id, path: copy_bytes(&e.rel_path) },
                    );
                },
            }
        };
        let f = RenderedFile { rel_path: p, content: c };
        proof {
            assert(entry_render(tpl.entries@[i as int], m) == Ok::<(Seq<u8>, Seq<u8>), Seq<u8>>(
                (f.rel_path@, f.content@),
            ));
            assert(staged_view(files@.push(f)) =~= staged_view(files@).push(
                (f.rel_path@, f.content@),
            ));
        }
        files.push(f);
        i += 1;
    }
    let ghost all = staged_prefix(tpl.entries@, tpl.entries@.len() as int, m);
    let mut j: usize = 0;
    while j < files.len()
        invariant
            j <= files@.len(),
            staged_view(files@) == all,
            stage_err_from(tpl.entries@, 0, m) is None,
            ctx@ == m,
            first_dup_from(all, 0) == first_dup_from(all, j as int),
        decreases files@.len() - j,
    {
        let mut a: usize = 0;
        while a < j
            invariant
                a <= j < files@.len(),
                staged_view(files@) == all,
                forall|k: int| 0 <= k < a ==> (#[trigger] all[k]).0 != all[j as int].0,
            decreases j - a,
        {
            proof {
                assert(all[a as int].0 == files@[a as int].rel_path@);
                assert(all[j as int].0 == files@[j as int].rel_path@);
            }
            if bytes_eq(&files[a].rel_path, &files[j].rel_path) {
                proof {
                    assert((#[trigger] all[a as int]).0 == all[j as int].0);
                    assert(first_dup_from(all, j as int) == Some(j as int));
                }
                return Err(GenError::FileConflict(copy_bytes(&files[j].rel_path)));
            }
            a += 1;
        }
        proof {
            assert(!(exists|k: int| 0 <= k < j && (#[trigger] all[k]).0 == all[j as int].0));
        }
        j += 1;
    }
    Ok(StagingArea { files })
}

/// Runs one whole generation request against a target: resolve, validate,
/// stage, then — only if the conflict policy allows — commit the staged tree
/// as one step and return the manifest.
///
/// Law: atomicity — on any failure the target afterwards is exactly as
/// before the call (it does not exist if it did not, and is unchanged if it
/// did).
///
/// Law: conflict safety — with an existing non-empty target and the abort
/// policy the call fails with a conflict on the target path and the target is
/// untouched; otherwise a well-formed request succeeds and both target and
/// manifest match the fresh render that [`generate_spec`] denotes.
#[verifier::loop_isolation(false)]
pub fn materialize(
    catalog: &Catalog,
    key: &Vec<u8>,
    bindings: &Vec<Binding>,
    target_path: &Vec<u8>,
    policy: ConflictPolicy,
    target: &mut TargetState,
) -> (r: Result<GeneratedProject, GenError>)
    requires
        catalog.wf(),
    ensures
        r is Err ==> final(target)@ == old(target)@,
        generate_spec(catalog.templates@, key@, bindings@) matches Err(ge) ==> (r matches Err(e)
            && e@ == ge),
        (generate_spec(catalog.templates@, key@, bindings@) is Ok && commit_blocked(
            old(target)@,
            policy,
        )) ==> (r matches Err(e) && e@ == ErrorModel::FileConflict(target_path@)),
        generate_spec(catalog.templates@, key@, bindings@) matches Ok(files) ==> !commit_blocked(
            old(target)@,
            policy,
        ) ==> (r matches Ok(g) && final(target).exists && pairs_view(final(target).files@) == files
            && g.target@ == target_path@ && manifest_view(g) == manifest_spec(files)),
{
    let stage = match generate(catalog, key, bindings) {
        Ok(s) => s,
        Err(e) => {
            return Err(e);
        },
    };
    if target.exists && target.files.len() > 0 && policy == ConflictPolicy::Abort {
        return Err(GenError::FileConflict(copy_bytes(target_path)));
    }
    let ghost files = staged_view(stage.files@);
    let mut stored: Vec<(Vec<u8>, Vec<u8>)> = Vec::new();
    let mut man: Vec<ManifestEntry> = Vec::new();
    let mut i: usize = 0;
    while i < stage.files.len()
        invariant
            i <= stage.files@.len(),
            files == staged_view(stage.files@),
            stored@.len() == i,
            man@.len() == i,
            forall|k: int| 0 <= k < i ==> (#[trigger] pairs_view(stored@)[k]) == files[k],
            forall|k: int| 0 <= k < i ==> (#[trigger] man@[k]@) == manifest_spec(files)[k],
        decreases stage.files@.len() - i,
    {
        let f = &stage.files[i];
        let ghost fp = f.rel_path@;
        let ghost fc = f.content@;
        let path_copy = copy_bytes(&f.rel_path);
        let content_copy = copy_bytes(&f.content);
        let entry = ManifestEntry {
            rel_path: copy_bytes(&f.rel_path),
            size: f.content.len(),
            digest: fnv64_digest(&f.content),
        };
        let ghost st0 = stored@;
        stored.push((path_copy, content_copy));
        man.push(entry);
        proof {
            assert(pairs_view(stored@) =~= pairs_view(st0).push((path_copy@, content_copy@)));
            assert(files[i as int] == (fp, fc));
            assert(pairs_view(stored@)[i as int] == (fp, fc));
            assert(man@[i as int]@ == (fp, fc.len() as int, fnv64(fc)));
            assert(manifest_spec(files)[i as int] == (fp, fc.len() as int, fnv64(fc)));
            assert(forall|k: int| 0 <= k < i ==> (#[trigger] man@[k]@) == manifest_spec(files)[k]);
        }
        i += 1;
    }
    target.exists = true;
    target.files = stored;
    proof {
        assert(pairs_view(target.files@) =~= files);
        assert(man@.map_values(|e: ManifestEntry| e@) =~= manifest_spec(files));
    }
    Ok(GeneratedProject { target: copy_bytes(target_path), entries: man })
}

} // verus!
