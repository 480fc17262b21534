//! Creating a garden file: where "garden init" writes and what it records.
use vstd::prelude::*;

use crate::cli::InitOptions;
use crate::config::reader::add_section;
use crate::constants;
use crate::errors::GardenError;
use crate::path::{
    is_absolute, path_file_name, path_parent, path_push, spec_is_absolute, spec_path_file_name, spec_path_parent,
    spec_path_push,
};
use crate::text::{concat, owned, str_eq};
use crate::yaml::{entries_view, hash_get, hash_set, vhash_get, vhash_set, yaml_clone, yaml_view, Yaml, YamlView};

verus! {

/// The directory and file name that "garden init" writes to, before "--global": an
/// absolute file name gives its own directory and final component; any other is
/// taken in the current directory. `None` when an absolute file name has no parent
/// or no final component.
pub open spec fn spec_init_target(filename: Seq<char>, current_dir: Seq<char>) -> Option<(Seq<char>, Seq<char>)> {
    if spec_is_absolute(filename) {
        match (spec_path_parent(filename), spec_path_file_name(filename)) {
            (Some(dir), Some(name)) => Some((dir, name)),
            _ => None,
        }
    } else {
        Some((current_dir, filename))
    }
}

/// Where "garden init" writes, as (directory, file path): "--global" uses the user's
/// configuration directory. "--global" with an absolute file name is a usage error.
pub fn init_location(options: &InitOptions, current_dir: &str, xdg_dir: &str) -> (r: Result<
    (String, String),
    GardenError,
>)
    ensures
        spec_is_absolute(options.filename@) && options.global ==> r matches Err(GardenError::Usage(_)),
        !(spec_is_absolute(options.filename@) && options.global) ==> match spec_init_target(
            options.filename@,
            current_dir@,
        ) {
            Some((dir, name)) => {
                let d = if options.global {
                    xdg_dir@
                } else {
                    dir
                };
                r matches Ok((rd, rp)) && rd@ == d && rp@ == spec_path_push(d, name)
            },
            None => r matches Err(GardenError::AssertionError(_)),
        },
{
    let mut dirname = owned(current_dir);
    let mut filename = owned(options.filename.as_str());
    if is_absolute(options.filename.as_str()) {
        if options.global {
            return Err(GardenError::Usage(owned("'--global' cannot be used with an absolute path")));
        }
        dirname = match path_parent(options.filename.as_str()) {
            Some(parent) => parent,
            None => {
                return Err(
                    GardenError::AssertionError(concat("unable to get parent(): ", options.filename.as_str())),
                );
            },
        };
        filename = match path_file_name(options.filename.as_str()) {
            Some(name) => name,
            None => {
                return Err(
                    GardenError::AssertionError(concat("unable to get file path: ", options.filename.as_str())),
                );
            },
        };
    }
    if options.global {
        dirname = owned(xdg_dir);
    }
    let config_path = path_push(dirname.as_str(), filename.as_str());
    Ok((dirname, config_path))
}

/// "garden init" records the repository of the current directory as a tree unless
/// "--empty" is given or the root is set to something other than the default.
pub fn init_plants_tree(options: &InitOptions) -> (b: bool)
    ensures
        b == (!options.empty && options.root@ == constants::GARDEN_CONFIG_DIR_EXPR@),
{
    !options.empty && str_eq(options.root.as_str(), constants::GARDEN_CONFIG_DIR_EXPR)
}

/// The mapping entries after setting `key` inside the mapping under `section`; unchanged
/// when there is no mapping under `section`.
pub open spec fn vset_in_section(e: Seq<(YamlView, YamlView)>, section: Seq<char>, key: Seq<char>, value: YamlView) -> Seq<
    (YamlView, YamlView),
> {
    match vhash_get(e, section) {
        Some(YamlView::Hash(s)) => vhash_set(e, section, YamlView::Hash(vhash_set(s, key, value))),
        _ => e,
    }
}

/// The mapping entries with a mapping under `section`: an existing mapping is kept,
/// anything else under that key is replaced by an empty mapping.
pub open spec fn vsection_added(e: Seq<(YamlView, YamlView)>, section: Seq<char>) -> Seq<(YamlView, YamlView)> {
    match vhash_get(e, section) {
        Some(YamlView::Hash(_)) => e,
        _ => vhash_set(e, section, YamlView::Hash(Seq::empty())),
    }
}

/// The document that "garden init" writes: the planted tree's "path" becomes
/// "${GARDEN_CONFIG_DIR}" when the tree is the garden's directory, and "garden.root"
/// is set unless a tree was planted with the default root.
pub open spec fn spec_init_document(doc: YamlView, root: Seq<char>, planted: Option<Seq<char>>, tree_at_root: bool) -> YamlView {
    let with_path = match (planted, doc) {
        (Some(name), YamlView::Hash(e)) => if tree_at_root {
            match vhash_get(e, constants::TREES@) {
                Some(YamlView::Hash(trees)) => YamlView::Hash(
                    vhash_set(
                        e,
                        constants::TREES@,
                        YamlView::Hash(
                            vset_in_section(trees, name, constants::PATH@, YamlView::String(constants::GARDEN_CONFIG_DIR_EXPR@)),
                        ),
                    ),
                ),
                _ => doc,
            }
        } else {
            doc
        },
        _ => doc,
    };
    if planted is None || root != constants::GARDEN_CONFIG_DIR_EXPR@ {
        match with_path {
            YamlView::Hash(e) => YamlView::Hash(
                vset_in_section(vsection_added(e, constants::GARDEN@), constants::GARDEN@, constants::ROOT@, YamlView::String(root)),
            ),
            _ => with_path,
        }
    } else {
        with_path
    }
}

/// A copy of the entries of a mapping node.
fn mapping_entries(y: &Yaml) -> (r: Option<Vec<(Yaml, Yaml)>>)
    ensures
        match yaml_view(*y) {
            YamlView::Hash(h) => r matches Some(e) && entries_view(e@) == h,
            _ => r is None,
        },
{
    match yaml_clone(y) {
        Yaml::Hash(h) => Some(h),
        _ => None,
    }
}

/// Set `key` inside the mapping under `section` (see `vset_in_section`).
fn set_in_section(entries: &mut Vec<(Yaml, Yaml)>, section: &str, key: &str, value: Yaml)
    ensures
        entries_view(final(entries)@) == vset_in_section(entries_view(old(entries)@), section@, key@, yaml_view(value)),
{
    let inner = match hash_get(entries, section) {
        Some(y) => mapping_entries(y),
        None => None,
    };
    match inner {
        Some(mut s) => {
            hash_set(&mut s, key, value);
            hash_set(entries, section, Yaml::Hash(s));
        },
        None => {},
    }
}

/// Record in the document what "garden init" writes (see `spec_init_document`).
/// `planted` names the tree recorded for the current repository, if any, and
/// `tree_at_root` says whether that repository is the garden's directory. Fails when
/// "garden.root" must be set and the document is not a mapping.
pub fn init_document(doc: &mut Yaml, root: &str, planted: Option<&str>, tree_at_root: bool) -> (r: Result<(), GardenError>)
    ensures
        r is Ok ==> yaml_view(*final(doc)) == spec_init_document(yaml_view(*old(doc)), root@, match planted {
            Some(n) => Some(n@),
            None => None,
        }, tree_at_root),
        r is Err <==> (!(*old(doc) is Hash) && (planted is None || root@ != constants::GARDEN_CONFIG_DIR_EXPR@)),
        r is Err ==> r->Err_0 is InvalidConfiguration,
{
    if let Some(name) = planted {
        if tree_at_root {
            match doc {
                Yaml::Hash(entries) => {
                    let trees = match hash_get(entries, constants::TREES) {
                        Some(y) => mapping_entries(y),
                        None => None,
                    };
                    match trees {
                        Some(mut t) => {
                            set_in_section(
                                &mut t,
                                name,
                                constants::PATH,
                                Yaml::String(owned(constants::GARDEN_CONFIG_DIR_EXPR)),
                            );
                            hash_set(entries, constants::TREES, Yaml::Hash(t));
                        },
                        None => {},
                    }
                },
                _ => {},
            }
        }
    }
    if planted.is_none() || !str_eq(root, constants::GARDEN_CONFIG_DIR_EXPR) {
        match doc {
            Yaml::Hash(entries) => {
                let is_mapping = match hash_get(entries, constants::GARDEN) {
                    Some(Yaml::Hash(_)) => true,
                    _ => false,
                };
                if !is_mapping {
                    let empty: Vec<(Yaml, Yaml)> = Vec::new();
                    assert(entries_view(empty@) =~= Seq::<(YamlView, YamlView)>::empty());
                    hash_set(entries, constants::GARDEN, Yaml::Hash(empty));
                }
                set_in_section(entries, constants::GARDEN, constants::ROOT, Yaml::String(owned(root)));
            },
            _ => {
                return add_section(constants::GARDEN, doc);
            },
        }
    }
    Ok(())
}

} // verus!
