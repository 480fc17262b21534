//! Garden configuration files.
use vstd::prelude::*;

use crate::cmd::strs_view;
use crate::constants;
use crate::model::opt_view;
use crate::path::{is_absolute, path_push, spec_is_absolute, spec_path_push};
use crate::errors::GardenError;
use crate::model::Configuration;
use crate::text::{concat, owned, str_eq};

/// YAML reader
pub mod reader;

verus! {

/// The directories searched for a garden file, in priority order: the current
/// directory, its "garden" and "etc/garden" subdirectories when they exist, the XDG
/// configuration directory, "~/etc/garden" when it exists and "/etc/garden" when it
/// exists. `exists` tells which of the four optional directories exist.
pub open spec fn spec_search_path(
    current_dir: Seq<char>,
    home_dir: Seq<char>,
    xdg_dir: Seq<char>,
    exists: Seq<bool>,
) -> Seq<Seq<char>> {
    let garden = spec_path_push(current_dir, "garden"@);
    let etc_garden = spec_path_push(spec_path_push(current_dir, "etc"@), "garden"@);
    let home_etc = spec_path_push(spec_path_push(home_dir, "etc"@), "garden"@);
    let p1 = seq![current_dir];
    let p2 = if exists[0] {
        p1.push(garden)
    } else {
        p1
    };
    let p3 = if exists[1] {
        p2.push(etc_garden)
    } else {
        p2
    };
    let p4 = p3.push(xdg_dir);
    let p5 = if exists[2] {
        p4.push(home_etc)
    } else {
        p4
    };
    if exists[3] {
        p5.push("/etc/garden"@)
    } else {
        p5
    }
}

/// The candidate directories probed by `search_path`, in order: "<cwd>/garden",
/// "<cwd>/etc/garden", "~/etc/garden" and "/etc/garden".
pub fn search_path_candidates(current_dir: &str, home_dir: &str) -> (r: Vec<String>)
    ensures
        strs_view(r@) == seq![
            spec_path_push(current_dir@, "garden"@),
            spec_path_push(spec_path_push(current_dir@, "etc"@), "garden"@),
            spec_path_push(spec_path_push(home_dir@, "etc"@), "garden"@),
            "/etc/garden"@,
        ],
{
    let garden = path_push(current_dir, "garden");
    let etc = path_push(current_dir, "etc");
    let etc_garden = path_push(etc.as_str(), "garden");
    let home_etc = path_push(home_dir, "etc");
    let home_etc_garden = path_push(home_etc.as_str(), "garden");
    let r = vec![garden, etc_garden, home_etc_garden, owned("/etc/garden")];
    assert(strs_view(r@) =~= seq![
        spec_path_push(current_dir@, "garden"@),
        spec_path_push(spec_path_push(current_dir@, "etc"@), "garden"@),
        spec_path_push(spec_path_push(home_dir@, "etc"@), "garden"@),
        "/etc/garden"@,
    ]);
    r
}

/// The directories searched for a garden file (see `spec_search_path`). `exists`
/// tells, for each of `search_path_candidates` in order, whether it exists.
pub fn search_path(current_dir: &str, home_dir: &str, xdg_dir: &str, exists: &Vec<bool>) -> (r: Vec<String>)
    requires
        exists@.len() == 4,
    ensures
        strs_view(r@) == spec_search_path(current_dir@, home_dir@, xdg_dir@, exists@),
{
    let candidates = search_path_candidates(current_dir, home_dir);
    assert(strs_view(candidates@).len() == candidates@.len());
    assert(candidates@.len() == 4);
    assert(forall|k: int| 0 <= k < 4 ==> candidates@[k]@ == strs_view(candidates@)[k]);
    let mut paths: Vec<String> = Vec::new();
    paths.push(owned(current_dir));
    if exists[0] {
        paths.push(candidates[0].clone());
    }
    if exists[1] {
        paths.push(candidates[1].clone());
    }
    paths.push(owned(xdg_dir));
    if exists[2] {
        paths.push(candidates[2].clone());
    }
    if exists[3] {
        paths.push(candidates[3].clone());
    }
    assert(strs_view(paths@) =~= spec_search_path(current_dir@, home_dir@, xdg_dir@, exists@));
    paths
}

/// Where to look for the configuration file: the path given on the command line is
/// used directly when it is absolute or names an existing file (`given_is_file`);
/// otherwise that path, or "garden.yaml" when none was given, is looked up in each
/// search-path directory in order, and the first candidate that exists is used.
pub open spec fn spec_config_file_candidates(
    given: Option<Seq<char>>,
    given_is_file: bool,
    search_path: Seq<Seq<char>>,
) -> (Option<Seq<char>>, Seq<Seq<char>>) {
    match given {
        Some(p) => if given_is_file || spec_is_absolute(p) {
            (Some(p), Seq::empty())
        } else {
            (None, search_path.map_values(|d: Seq<char>| spec_path_push(d, p)))
        },
        None => (None, search_path.map_values(|d: Seq<char>| spec_path_push(d, constants::GARDEN_CONFIG@))),
    }
}

/// Choose the configuration file to read (see `spec_config_file_candidates`):
/// either the given path, or the candidates to probe in order.
pub fn config_file_candidates(given: Option<&str>, given_is_file: bool, search_path: &Vec<String>) -> (r: (
    Option<String>,
    Vec<String>,
))
    ensures
        (opt_view(r.0), strs_view(r.1@)) == spec_config_file_candidates(
            match given {
                Some(p) => Some(p@),
                None => None,
            },
            given_is_file,
            strs_view(search_path@),
        ),
{
    let basename = match given {
        Some(p) => {
            if given_is_file || is_absolute(p) {
                let none: Vec<String> = Vec::new();
                assert(strs_view(none@) =~= Seq::<Seq<char>>::empty());
                return (Some(owned(p)), none);
            }
            owned(p)
        },
        None => owned(constants::GARDEN_CONFIG),
    };
    let ghost dirs = strs_view(search_path@);
    let mut candidates: Vec<String> = Vec::new();
    let mut i: usize = 0;
    while i < search_path.len()
        invariant
            dirs == strs_view(search_path@),
            i <= search_path@.len(),
            strs_view(candidates@) == dirs.take(i as int).map_values(|d: Seq<char>| spec_path_push(d, basename@)),
        decreases search_path@.len() - i,
    {
        let ghost before = candidates@;
        let c = path_push(search_path[i].as_str(), basename.as_str());
        candidates.push(c);
        assert(strs_view(candidates@) =~= strs_view(before).push(c@));
        assert(dirs[i as int] == search_path@[i as int]@);
        assert(dirs.take(i + 1) =~= dirs.take(i as int).push(dirs[i as int]));
        assert(strs_view(candidates@) =~= dirs.take(i + 1).map_values(
            |d: Seq<char>| spec_path_push(d, basename@),
        ));
        i = i + 1;
    }
    assert(dirs.take(search_path@.len() as int) =~= dirs);
    (None, candidates)
}

/// The message for a graft whose configuration file does not exist.
pub open spec fn invalid_graft_message(name: Seq<char>, config_path: Seq<char>) -> Seq<char> {
    name + ": invalid graft in \""@ + config_path + "\""@
}

/// Index of the first graft whose configuration file does not exist.
pub open spec fn first_missing(exists: Seq<bool>) -> Option<int>
    decreases exists.len(),
{
    if exists.len() == 0 {
        None
    } else {
        match first_missing(exists.drop_last()) {
            Some(i) => Some(i),
            None => if !exists.last() {
                Some(exists.len() - 1)
            } else {
                None
            },
        }
    }
}

/// The graft read next from a configuration: its name, the path of its
/// configuration file and its root, when it sets one.
pub open spec fn graft_detail_view(d: (String, String, Option<String>)) -> (Seq<char>, Seq<char>, Option<Seq<char>>) {
    (d.0@, d.1@, opt_view(d.2))
}

/// The grafts of a configuration to read, in order, once the path of each graft's
/// configuration file is evaluated (`paths`) and known to exist or not (`exists`).
/// Every path is checked before any graft is read: the first graft whose file does
/// not exist is a configuration error naming the graft and the configuration file.
pub fn graft_details(config: &Configuration, paths: &Vec<String>, exists: &Vec<bool>) -> (r: Result<
    Vec<(String, String, Option<String>)>,
    GardenError,
>)
    requires
        paths.len() == config.grafts@.len(),
        exists.len() == paths.len(),
    ensures
        match first_missing(exists@) {
            Some(i) => r matches Err(GardenError::ConfigurationError(m)) && m@ == invalid_graft_message(
                config.grafts@[i].1.name@,
                match config.path {
                    Some(p) => p@,
                    None => constants::DOT@,
                },
            ),
            None => r matches Ok(d) && d.len() == paths.len() && forall|k: int|
                0 <= k < d.len() ==> #[trigger] graft_detail_view(d@[k]) == (
                    config.grafts@[k].0,
                    paths@[k]@,
                    if config.grafts@[k].1.root@.len() == 0 {
                        None::<Seq<char>>
                    } else {
                        Some(config.grafts@[k].1.root@)
                    },
                ),
        },
{
    let mut details: Vec<(String, String, Option<String>)> = Vec::new();
    let mut i: usize = 0;
    proof {
        reveal_strlit("");
    }
    while i < paths.len()
        invariant
            i <= paths.len(),
            paths.len() == config.grafts@.len(),
            exists.len() == paths.len(),
            first_missing(exists@.take(i as int)) is None,
            details.len() == i,
            forall|k: int|
                0 <= k < i ==> #[trigger] graft_detail_view(details@[k]) == (
                    config.grafts@[k].0,
                    paths@[k]@,
                    if config.grafts@[k].1.root@.len() == 0 {
                        None::<Seq<char>>
                    } else {
                        Some(config.grafts@[k].1.root@)
                    },
                ),
            ""@.len() == 0,
        decreases paths.len() - i,
    {
        assert(exists@.take(i + 1).drop_last() =~= exists@.take(i as int));
        let graft = config.grafts.value_at(i);
        if !exists[i] {
            proof {
                lemma_first_missing_prefix(exists@, i as int + 1);
            }
            let display = config.get_path_for_display();
            let m1 = concat(graft.get_name().as_str(), ": invalid graft in \"");
            let m2 = concat(m1.as_str(), display.as_str());
            let msg = concat(m2.as_str(), "\"");
            return Err(GardenError::ConfigurationError(msg));
        }
        let empty_root = str_eq(graft.root.as_str(), "");
        assert(empty_root == (graft.root@.len() == 0)) by {
            if graft.root@.len() == 0 {
                assert(graft.root@ =~= ""@);
            }
        }
        let root = if empty_root {
            None
        } else {
            Some(graft.root.clone())
        };
        let name = config.grafts.key_at(i).clone();
        let path = paths[i].clone();
        let ghost detail = (name, path, root);
        assert(graft_detail_view(detail) == (
            config.grafts@[i as int].0,
            paths@[i as int]@,
            if config.grafts@[i as int].1.root@.len() == 0 {
                None::<Seq<char>>
            } else {
                Some(config.grafts@[i as int].1.root@)
            },
        ));
        details.push((name, path, root));
        i = i + 1;
    }
    assert(exists@.take(paths.len() as int) =~= exists@);
    Ok(details)
}

/// The first missing index of a prefix that has one is the first of the whole.
proof fn lemma_first_missing_prefix(e: Seq<bool>, k: int)
    requires
        0 <= k <= e.len(),
        first_missing(e.take(k)) is Some,
    ensures
        first_missing(e) == first_missing(e.take(k)),
    decreases e.len(),
{
    if k < e.len() {
        assert(e.drop_last().take(k) =~= e.take(k));
        lemma_first_missing_prefix(e.drop_last(), k);
    } else {
        assert(e.take(k) =~= e);
    }
}

} // verus!
