//! Sorting what a walk of the repository found: manifests, which define
//! packages, and source files in an analyzed language, each with its role.

use vstd::prelude::*;
use crate::discover::packages::{manifest_kind, manifest_named};
use crate::ids::{extension_language, role_of, FileRole, Language};
use crate::path::{extension, extension_of, file_name, file_name_of, join, join_path, parent, parent_of};
use crate::workspace::{DiscoveredFile, ManifestKind};

verus! {

/// A manifest the walk found: its kind, its directory and its own path, all
/// repo-relative.
#[derive(Debug)]
pub struct WalkedManifest {
    pub kind: ManifestKind,
    pub dir: String,
    pub rel_path: String,
}

/// The manifest kind of a walked path, by its file name.
pub open spec fn manifest_at(rel: Seq<char>) -> Option<ManifestKind> {
    manifest_named(file_name(rel))
}

/// The language of a walked path that is no manifest, by its extension.
pub open spec fn language_at(rel: Seq<char>) -> Option<Language> {
    if manifest_at(rel) is Some {
        None
    } else {
        match extension(file_name(rel)) {
            Some(e) => extension_language(e),
            None => None,
        }
    }
}

/// The manifests among walked paths, in walk order: kind, directory, path.
pub open spec fn manifests_in(rels: Seq<String>) -> Seq<(ManifestKind, Seq<char>, Seq<char>)>
    decreases rels.len(),
{
    if rels.len() == 0 {
        Seq::empty()
    } else {
        let m = manifests_in(rels.drop_last());
        let r = rels.last()@;
        match manifest_at(r) {
            Some(k) => m.push((k, parent(r), r)),
            None => m,
        }
    }
}

/// The source files among walked paths, in walk order: path, absolute path,
/// language and role.
pub open spec fn sources_in(root: Seq<char>, rels: Seq<String>) -> Seq<(Seq<char>, Seq<char>, Language, FileRole)>
    decreases rels.len(),
{
    if rels.len() == 0 {
        Seq::empty()
    } else {
        let s = sources_in(root, rels.drop_last());
        let r = rels.last()@;
        match language_at(r) {
            Some(l) => s.push((r, join(root, r), l, role_of(r, l))),
            None => s,
        }
    }
}

pub open spec fn manifest_views(v: Seq<WalkedManifest>) -> Seq<(ManifestKind, Seq<char>, Seq<char>)> {
    v.map_values(|m: WalkedManifest| (m.kind, m.dir@, m.rel_path@))
}

pub open spec fn source_views(v: Seq<DiscoveredFile>) -> Seq<(Seq<char>, Seq<char>, Language, FileRole)> {
    v.map_values(|f: DiscoveredFile| (f.rel_path@, f.abs_path@, f.language, f.role))
}

/// Sorts the repo-relative paths of the walked files under `root` into
/// manifests and analyzed source files; other files are dropped. A source
/// file belongs to no package yet.
pub fn sort_walked(root: &str, rel_paths: &Vec<String>) -> (r: (Vec<WalkedManifest>, Vec<DiscoveredFile>))
    ensures
        manifest_views(r.0@) == manifests_in(rel_paths@),
        source_views(r.1@) == sources_in(root@, rel_paths@),
        forall|i: int| 0 <= i < r.1@.len() ==> r.1@[i].package@ == Seq::<char>::empty(),
{
    let mut manifests: Vec<WalkedManifest> = Vec::new();
    let mut files: Vec<DiscoveredFile> = Vec::new();
    let mut i: usize = 0;
    while i < rel_paths.len()
        invariant
            i <= rel_paths@.len(),
            manifest_views(manifests@) == manifests_in(rel_paths@.take(i as int)),
            source_views(files@) == sources_in(root@, rel_paths@.take(i as int)),
            forall|k: int| 0 <= k < files@.len() ==> files@[k].package@ == Seq::<char>::empty(),
        decreases rel_paths@.len() - i,
    {
        let rel = rel_paths[i].as_str();
        assert(rel_paths@.take(i + 1).drop_last() =~= rel_paths@.take(i as int));
        let name = file_name_of(rel);
        match manifest_kind(name.as_str()) {
            Some(kind) => {
                let m = WalkedManifest { kind, dir: parent_of(rel), rel_path: String::from_str(rel) };
                assert(manifest_views(manifests@.push(m)) =~= manifest_views(manifests@).push(
                    (m.kind, m.dir@, m.rel_path@),
                ));
                manifests.push(m);
            },
            None => {
                if let Some(ext) = extension_of(name.as_str()) {
                    if let Some(language) = Language::from_extension(ext.as_str()) {
                        let f = DiscoveredFile {
                            rel_path: String::from_str(rel),
                            abs_path: join_path(root, rel),
                            language,
                            package: String::new(),
                            role: FileRole::classify(rel, language),
                        };
                        assert(source_views(files@.push(f)) =~= source_views(files@).push(
                            (f.rel_path@, f.abs_path@, f.language, f.role),
                        ));
                        files.push(f);
                    }
                }
            },
        }
        i += 1;
    }
    assert(rel_paths@.take(rel_paths@.len() as int) =~= rel_paths@);
    (manifests, files)
}

} // verus!
