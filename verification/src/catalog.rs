//! Template descriptors and the keyed template catalog.
//!
//! A catalog is built once from a list of descriptors, validated for
//! structural well-formedness at build time (unique keys, no empty template,
//! unique relative paths, unique schema variable names), and is read-only
//! afterwards, so resolution at request time can fail only with "not found".

use vstd::prelude::*;

use crate::errors::GenError;
use crate::text::bytes_eq;
use crate::text::check_identifier;
use crate::text::check_package_name;
use crate::text::copy_bytes;
use crate::text::valid_identifier;
use crate::text::valid_package_name;

verus! {

/// The closed set of naming rules a schema can put on a variable value.
#[derive(Clone, Copy, PartialEq, Eq, Structural, Debug)]
pub enum NamingRule {
    /// Any bytes.
    FreeText,
    /// A bare identifier of the target ecosystem.
    Identifier,
    /// A lower-case, hyphen- or underscore-separated package name.
    PackageName,
    /// Free text meant for human display; whitespace allowed.
    DisplayName,
}

/// Whether a value is legal under a naming rule.
pub open spec fn rule_allows(r: NamingRule, v: Seq<u8>) -> bool {
    match r {
        NamingRule::FreeText => true,
        NamingRule::Identifier => valid_identifier(v),
        NamingRule::PackageName => valid_package_name(v),
        NamingRule::DisplayName => true,
    }
}

/// Checks a value against a naming rule.
pub fn check_rule(r: NamingRule, v: &Vec<u8>) -> (ok: bool)
    ensures
        ok == rule_allows(r, v@),
{
    match r {
        NamingRule::FreeText => true,
        NamingRule::Identifier => check_identifier(v),
        NamingRule::PackageName => check_package_name(v),
        NamingRule::DisplayName => true,
    }
}

/// One declared variable of a template's schema.
pub struct VarSpec {
    pub name: Vec<u8>,
    pub required: bool,
    pub default: Option<Vec<u8>>,
    pub rule: NamingRule,
}

/// One file of a template's tree: a relative path, its bytes, and whether the
/// bytes are binary (binary content is copied verbatim; its path is still
/// rendered).
pub struct FileEntry {
    pub rel_path: Vec<u8>,
    pub content: Vec<u8>,
    pub binary: bool,
}

/// One template: its key, its file tree, and its declared variable schema.
pub struct TemplateDescriptor {
    pub key: Vec<u8>,
    pub entries: Vec<FileEntry>,
    pub schema: Vec<VarSpec>,
}

pub open spec fn schema_names_unique(s: Seq<VarSpec>) -> bool {
    forall|a: int, b: int| 0 <= a < b < s.len() ==> s[a].name@ != s[b].name@
}

pub open spec fn entry_paths_unique(s: Seq<FileEntry>) -> bool {
    forall|a: int, b: int| 0 <= a < b < s.len() ==> s[a].rel_path@ != s[b].rel_path@
}

/// Structural well-formedness of one template, established at catalog build.
pub open spec fn template_wf(t: TemplateDescriptor) -> bool {
    &&& t.entries@.len() > 0
    &&& entry_paths_unique(t.entries@)
    &&& schema_names_unique(t.schema@)
}

pub open spec fn keys_unique(ts: Seq<TemplateDescriptor>) -> bool {
    forall|a: int, b: int| 0 <= a < b < ts.len() ==> ts[a].key@ != ts[b].key@
}

/// Structural well-formedness of a whole catalog.
pub open spec fn catalog_wf(ts: Seq<TemplateDescriptor>) -> bool {
    &&& keys_unique(ts)
    &&& forall|i: int| 0 <= i < ts.len() ==> template_wf(#[trigger] ts[i])
}

/// The first template under `key`, if any.
pub open spec fn find_key_from(ts: Seq<TemplateDescriptor>, i: int, key: Seq<u8>) -> Option<int>
    decreases ts.len() - i,
    when 0 <= i <= ts.len()
{
    if i >= ts.len() {
        None
    } else if ts[i].key@ == key {
        Some(i)
    } else {
        find_key_from(ts, i + 1, key)
    }
}

pub open spec fn find_key(ts: Seq<TemplateDescriptor>, key: Seq<u8>) -> Option<int> {
    find_key_from(ts, 0, key)
}

pub proof fn lemma_find_key_from(ts: Seq<TemplateDescriptor>, i: int, key: Seq<u8>)
    requires
        0 <= i <= ts.len(),
    ensures
        find_key_from(ts, i, key) matches Some(j) ==> i <= j < ts.len() && ts[j].key@ == key,
        find_key_from(ts, i, key) is None ==> forall|j: int|
            i <= j < ts.len() ==> (#[trigger] ts[j].key@) != key,
    decreases ts.len() - i,
{
    if i < ts.len() && ts[i].key@ != key {
        lemma_find_key_from(ts, i + 1, key);
    }
}

/// Why a catalog could not be built from a descriptor list.
#[derive(Debug)]
pub enum BuildError {
    /// Two templates share a key; the key is attached.
    DuplicateKey(Vec<u8>),
    /// A template (named by its key) has no file entry at all.
    EmptyTemplate(Vec<u8>),
    /// A template holds the same relative path twice.
    DuplicatePath { key: Vec<u8>, path: Vec<u8> },
    /// A template's schema declares the same variable name twice.
    DuplicateVariable { key: Vec<u8>, name: Vec<u8> },
}

/// The immutable template index; built once by [`Catalog::new`], read-only
/// for the process lifetime, and safely shared by concurrent requests.
pub struct Catalog {
    pub templates: Vec<TemplateDescriptor>,
}

fn find_dup_name(schema: &Vec<VarSpec>) -> (r: Option<usize>)
    ensures
        r matches Some(j) ==> j < schema@.len() && exists|a: int|
            0 <= a < j && schema@[a].name@ == schema@[j as int].name@,
        r is None ==> schema_names_unique(schema@),
{
    let mut j: usize = 0;
    while j < schema.len()
        invariant
            j <= schema@.len(),
            forall|a: int, b: int| 0 <= a < b < j ==> schema@[a].name@ != schema@[b].name@,
        decreases schema@.len() - j,
    {
        let mut a: usize = 0;
        while a < j
            invariant
                a <= j < schema@.len(),
                forall|k: int| 0 <= k < a ==> schema@[k].name@ != schema@[j as int].name@,
            decreases j - a,
        {
            if bytes_eq(&schema[a].name, &schema[j].name) {
                return Some(j);
            }
            a += 1;
        }
        j += 1;
    }
    None
}

fn find_dup_path(entries: &Vec<FileEntry>) -> (r: Option<usize>)
    ensures
        r matches Some(j) ==> j < entries@.len() && exists|a: int|
            0 <= a < j && entries@[a].rel_path@ == entries@[j as int].rel_path@,
        r is None ==> entry_paths_unique(entries@),
{
    let mut j: usize = 0;
    while j < entries.len()
        invariant
            j <= entries@.len(),
            forall|a: int, b: int| 0 <= a < b < j ==> entries@[a].rel_path@ != entries@[b].rel_path@,
        decreases entries@.len() - j,
    {
        let mut a: usize = 0;
        while a < j
            invariant
                a <= j < entries@.len(),
                forall|k: int| 0 <= k < a ==> entries@[k].rel_path@ != entries@[j as int].rel_path@,
            decreases j - a,
        {
            if bytes_eq(&entries[a].rel_path, &entries[j].rel_path) {
                return Some(j);
            }
            a += 1;
        }
        j += 1;
    }
    None
}

impl Catalog {
    pub open spec fn wf(self) -> bool {
        catalog_wf(self.templates@)
    }

    /// Builds the catalog, validating structural well-formedness of every
    /// descriptor up front; succeeds exactly on well-formed descriptor lists.
    pub fn new(templates: Vec<TemplateDescriptor>) -> (r: Result<Catalog, BuildError>)
        ensures
            r matches Ok(c) ==> c.templates@ == templates@ && c.wf(),
            r is Err ==> !catalog_wf(templates@),
            (r is Ok) == catalog_wf(templates@),
    {
        let mut i: usize = 0;
        while i < templates.len()
            invariant
                i <= templates@.len(),
                forall|k: int| 0 <= k < i ==> template_wf(#[trigger] templates@[k]),
            decreases templates@.len() - i,
        {
            let t = &templates[i];
            if t.entries.len() == 0 {
                return Err(BuildError::EmptyTemplate(copy_bytes(&t.key)));
            }
            match find_dup_path(&t.entries) {
                Some(j) => {
                    return Err(
                        BuildError::DuplicatePath {
                            key: copy_bytes(&t.key),
                            path: copy_bytes(&t.entries[j].rel_path),
                        },
                    );
                },
                None => {},
            }
            match find_dup_name(&t.schema) {
                Some(j) => {
                    return Err(
                        BuildError::DuplicateVariable {
                            key: copy_bytes(&t.key),
                            name: copy_bytes(&t.schema[j].name),
                        },
                    );
                },
                None => {},
            }
            i += 1;
        }
        let mut j: usize = 0;
        while j < templates.len()
            invariant
                j <= templates@.len(),
                forall|a: int, b: int| 0 <= a < b < j ==> templates@[a].key@ != templates@[b].key@,
            decreases templates@.len() - j,
        {
            let mut a: usize = 0;
            while a < j
                invariant
                    a <= j < templates@.len(),
                    forall|k: int| 0 <= k < a ==> templates@[k].key@ != templates@[j as int].key@,
                decreases j - a,
            {
                if bytes_eq(&templates[a].key, &templates[j].key) {
                    return Err(BuildError::DuplicateKey(copy_bytes(&templates[j].key)));
                }
                a += 1;
            }
            j += 1;
        }
        Ok(Catalog { templates })
    }

    /// Resolves a key to its template; fails with `TemplateNotFound` exactly
    /// when no template carries the key.
    pub fn resolve<'a>(&'a self, key: &Vec<u8>) -> (r: Result<&'a TemplateDescriptor, GenError>)
        ensures
            r matches Ok(t) ==> (find_key(self.templates@, key@) matches Some(i) && *t
                == self.templates@[i] && t.key@ == key@),
            r matches Err(e) ==> find_key(self.templates@, key@) is None && (e@ matches
            crate::errors::ErrorModel::TemplateNotFound(k) && k == key@),
            (r is Ok) == (exists|i: int|
                0 <= i < self.templates@.len() && (#[trigger] self.templates@[i].key@) == key@),
    {
        let mut i: usize = 0;
        while i < self.templates.len()
            invariant
                i <= self.templates@.len(),
                find_key(self.templates@, key@) == find_key_from(self.templates@, i as int, key@),
            decreases self.templates@.len() - i,
        {
            if bytes_eq(&self.templates[i].key, key) {
                proof {
                    lemma_find_key_from(self.templates@, 0, key@);
                }
                return Ok(&self.templates[i]);
            }
            i += 1;
        }
        proof {
            lemma_find_key_from(self.templates@, 0, key@);
        }
        Err(GenError::TemplateNotFound(copy_bytes(key)))
    }

    /// All known template keys, in catalog order; a help surface for the
    /// caller's command layer.
    pub fn list_keys(&self) -> (r: Vec<Vec<u8>>)
        ensures
            r@.len() == self.templates@.len(),
            forall|i: int| 0 <= i < r@.len() ==> (#[trigger] r@[i]@) == self.templates@[i].key@,
    {
        let mut r: Vec<Vec<u8>> = Vec::new();
        let mut i: usize = 0;
        while i < self.templates.len()
            invariant
                i <= self.templates@.len(),
                r@.len() == i,
                forall|k: int| 0 <= k < i ==> (#[trigger] r@[k]@) == self.templates@[k].key@,
            decreases self.templates@.len() - i,
        {
            r.push(copy_bytes(&self.templates[i].key));
            i += 1;
        }
        r
    }
}

} // verus!
