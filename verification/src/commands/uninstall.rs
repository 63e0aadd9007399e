//! Choosing what an uninstall removes, and removing it from the state.
use vstd::prelude::*;

use crate::commands::verify::with_slug;
use crate::state::local::{
    installed_by_tool, keys_unique, law_lookup_after_remove, law_remove_keeps_keys_unique,
    law_remove_keeps_other_keys, lookup, removed, InstalledTool, StateFile,
};
use crate::text::{append_text, join_texts, joined, text_eq, text_from, texts};

verus! {

broadcast use vstd::seq_lib::group_seq_properties;

/// Why an uninstall cannot go ahead.
pub enum UninstallError {
    /// Several projects have a tool with this slug.
    Ambiguous { tool: String, projects: Vec<String> },
    /// No such tool is installed.
    NotInstalled { tool: String },
    /// Other installed tools were installed by this one (project and tool of each).
    HasDependents { dependents: Vec<(String, String)> },
}

pub open spec fn uninstall_error_message(e: UninstallError) -> Seq<char> {
    match e {
        UninstallError::Ambiguous { tool, projects } => "Tool '"@ + tool@
            + "' found in multiple projects: "@ + joined(texts(projects@), ", "@)
            + ". Use --project to specify."@,
        UninstallError::NotInstalled { tool } => "Tool '"@ + tool@ + "' is not installed."@,
        UninstallError::HasDependents { .. } => "Cannot uninstall: has dependents."@,
    }
}

impl UninstallError {
    /// The text shown for this error.
    pub fn message(&self) -> (r: String)
        ensures
            r@ == uninstall_error_message(*self),
    {
        match self {
            UninstallError::Ambiguous { tool, projects } => {
                let mut r = text_from("Tool '");
                append_text(&mut r, tool.as_str());
                append_text(&mut r, "' found in multiple projects: ");
                let list = join_texts(projects, ", ");
                append_text(&mut r, list.as_str());
                append_text(&mut r, ". Use --project to specify.");
                r
            },
            UninstallError::NotInstalled { tool } => {
                let mut r = text_from("Tool '");
                append_text(&mut r, tool.as_str());
                append_text(&mut r, "' is not installed.");
                r
            },
            UninstallError::HasDependents { .. } => text_from("Cannot uninstall: has dependents."),
        }
    }
}

/// The projects of some records, in order.
pub open spec fn projects_of(s: Seq<InstalledTool>) -> Seq<Seq<char>> {
    s.map_values(|t: InstalledTool| t.project_slug@)
}

/// The tool to uninstall: the record of `project`/`tool` when a project is
/// given; otherwise the only record with slug `tool`.
pub fn uninstall_target(state: &StateFile, tool: &str, project: Option<&str>) -> (r: Result<
    InstalledTool,
    UninstallError,
>)
    ensures
        match project {
            Some(p) => match lookup(state.installed@, p@, tool@) {
                Some(t) => r == Ok::<InstalledTool, UninstallError>(t),
                None => r matches Err(UninstallError::NotInstalled { tool: x }) && x@ == tool@,
            },
            None => {
                let found = with_slug(state.installed@, tool@);
                if found.len() == 0 {
                    r matches Err(UninstallError::NotInstalled { tool: x }) && x@ == tool@
                } else if found.len() == 1 {
                    r == Ok::<InstalledTool, UninstallError>(found[0])
                } else {
                    r matches Err(UninstallError::Ambiguous { tool: x, projects: ps }) && x@ == tool@
                        && texts(ps@) == projects_of(found)
                }
            },
        },
{
    match project {
        Some(p) => match state.find(p, tool) {
            Some(t) => Ok(t.clone()),
            None => Err(UninstallError::NotInstalled { tool: text_from(tool) }),
        },
        None => {
            let ghost pred = |x: InstalledTool| x.tool_slug@ == tool@;
            let n = state.installed.len();
            let mut found: Vec<InstalledTool> = Vec::new();
            let mut i: usize = 0;
            assert(state.installed@.take(0).filter(pred) =~= Seq::<InstalledTool>::empty());
            while i < n
                invariant
                    n == state.installed@.len(),
                    i <= n,
                    pred == (|x: InstalledTool| x.tool_slug@ == tool@),
                    found@ == state.installed@.take(i as int).filter(pred),
                decreases n - i,
            {
                let x = &state.installed[i];
                proof {
                    assert(state.installed@.take(i + 1) =~= state.installed@.take(i as int).push(*x));
                    state.installed@.take(i as int).lemma_filter_push(*x, pred);
                }
                if text_eq(x.tool_slug.as_str(), tool) {
                    found.push(x.clone());
                }
                i = i + 1;
            }
            assert(state.installed@.take(n as int) =~= state.installed@);
            if found.len() == 0 {
                Err(UninstallError::NotInstalled { tool: text_from(tool) })
            } else if found.len() == 1 {
                Ok(found.remove(0))
            } else {
                let mut projects: Vec<String> = Vec::new();
                let m = found.len();
                let mut k: usize = 0;
                while k < m
                    invariant
                        m == found@.len(),
                        k <= m,
                        texts(projects@) == projects_of(found@).take(k as int),
                    decreases m - k,
                {
                    let ghost before = projects@;
                    projects.push(found[k].project_slug.clone());
                    assert(texts(projects@) =~= texts(before).push(found@[k as int].project_slug@));
                    assert(projects_of(found@).take(k + 1) =~= projects_of(found@).take(k as int).push(
                        found@[k as int].project_slug@,
                    ));
                    k = k + 1;
                }
                assert(projects_of(found@).take(m as int) =~= projects_of(found@));
                Err(UninstallError::Ambiguous { tool: text_from(tool), projects })
            }
        },
    }
}

/// One tool to remove: its project, slug and file.
pub struct Removal {
    pub project_slug: String,
    pub tool_slug: String,
    pub path: String,
}

/// The removal of a record.
pub open spec fn removal_of(t: InstalledTool) -> Removal {
    Removal { project_slug: t.project_slug, tool_slug: t.tool_slug, path: t.path }
}

fn make_removal(t: &InstalledTool) -> (r: Removal)
    ensures
        r == removal_of(*t),
{
    Removal {
        project_slug: t.project_slug.clone(),
        tool_slug: t.tool_slug.clone(),
        path: t.path.clone(),
    }
}

/// The project and slug of each record.
pub open spec fn keys_of(s: Seq<InstalledTool>) -> Seq<(Seq<char>, Seq<char>)> {
    s.map_values(|t: InstalledTool| (t.project_slug@, t.tool_slug@))
}

/// What to remove for `target`: refused when other tools depend on it (the
/// tools it installed), unless `force` or `cascade`; otherwise the target,
/// followed with `cascade` by those dependents.
pub fn removal_plan(state: &StateFile, target: &InstalledTool, force: bool, cascade: bool) -> (r:
    Result<Vec<Removal>, UninstallError>)
    ensures
        ({
            let deps = installed_by_tool(state.installed@, target.project_slug@, target.tool_slug@);
            if deps.len() > 0 && !force && !cascade {
                r matches Err(UninstallError::HasDependents { dependents: ds }) && ds@.map_values(
                    |d: (String, String)| (d.0@, d.1@),
                ) == keys_of(deps)
            } else {
                r matches Ok(v) && v@ == seq![removal_of(*target)] + if cascade {
                    deps.map_values(|t: InstalledTool| removal_of(t))
                } else {
                    Seq::empty()
                }
            }
        }),
{
    let users = state.dependents_of(target.project_slug.as_str(), target.tool_slug.as_str());
    let ghost uv = users@.map_values(|t: &InstalledTool| *t);
    let m = users.len();
    if m > 0 && !force && !cascade {
        let mut ds: Vec<(String, String)> = Vec::new();
        let mut i: usize = 0;
        while i < m
            invariant
                m == users@.len(),
                uv == users@.map_values(|t: &InstalledTool| *t),
                i <= m,
                ds@.map_values(|d: (String, String)| (d.0@, d.1@)) == keys_of(uv).take(i as int),
            decreases m - i,
        {
            let t = users[i];
            let ghost before = ds@;
            ds.push((t.project_slug.clone(), t.tool_slug.clone()));
            assert(uv[i as int] == *t);
            assert(ds@.map_values(|d: (String, String)| (d.0@, d.1@)) =~= before.map_values(
                |d: (String, String)| (d.0@, d.1@),
            ).push((t.project_slug@, t.tool_slug@)));
            assert(keys_of(uv).take(i + 1) =~= keys_of(uv).take(i as int).push(
                (t.project_slug@, t.tool_slug@),
            ));
            i = i + 1;
        }
        assert(keys_of(uv).take(m as int) =~= keys_of(uv));
        return Err(UninstallError::HasDependents { dependents: ds });
    }
    let mut v: Vec<Removal> = Vec::new();
    v.push(make_removal(target));
    if cascade {
        let deps = state.dependencies_installed_by(target.project_slug.as_str(), target.tool_slug.as_str());
        let ghost dv = deps@.map_values(|t: &InstalledTool| *t);
        let n = deps.len();
        let ghost first = v@;
        let mut i: usize = 0;
        while i < n
            invariant
                n == deps@.len(),
                dv == deps@.map_values(|t: &InstalledTool| *t),
                i <= n,
                first == seq![removal_of(*target)],
                v@ == first + dv.map_values(|t: InstalledTool| removal_of(t)).take(i as int),
            decreases n - i,
        {
            let t = deps[i];
            v.push(make_removal(t));
            assert(v@ =~= first + dv.map_values(|t: InstalledTool| removal_of(t)).take(i + 1));
            i = i + 1;
        }
        assert(dv.map_values(|t: InstalledTool| removal_of(t)).take(n as int) =~= dv.map_values(
            |t: InstalledTool| removal_of(t),
        ));
    } else {
        assert(v@ =~= seq![removal_of(*target)] + Seq::<Removal>::empty());
    }
    Ok(v)
}

/// The records left after removing the first record of each key in turn.
pub open spec fn removed_all(s: Seq<InstalledTool>, keys: Seq<(Seq<char>, Seq<char>)>) -> Seq<
    InstalledTool,
>
    decreases keys.len(),
{
    if keys.len() == 0 {
        s
    } else {
        removed(removed_all(s, keys.drop_last()), keys.last().0, keys.last().1)
    }
}

/// The key of each removal.
pub open spec fn removal_keys(rs: Seq<Removal>) -> Seq<(Seq<char>, Seq<char>)> {
    rs.map_values(|r: Removal| (r.project_slug@, r.tool_slug@))
}

/// Removes the record of each removal from the state, in order.
pub fn apply_removals(state: &mut StateFile, removals: &Vec<Removal>)
    ensures
        final(state).version == old(state).version,
        final(state).installed@ == removed_all(old(state).installed@, removal_keys(removals@)),
{
    let n = removals.len();
    let mut i: usize = 0;
    assert(removal_keys(removals@).take(0) =~= Seq::<(Seq<char>, Seq<char>)>::empty());
    while i < n
        invariant
            n == removals@.len(),
            i <= n,
            state.version == old(state).version,
            state.installed@ == removed_all(old(state).installed@, removal_keys(removals@).take(i as int)),
        decreases n - i,
    {
        let r = &removals[i];
        let _ = state.remove(r.project_slug.as_str(), r.tool_slug.as_str());
        assert(removal_keys(removals@).take(i + 1).drop_last() =~= removal_keys(removals@).take(i as int));
        i = i + 1;
    }
    assert(removal_keys(removals@).take(n as int) =~= removal_keys(removals@));
}

/// With each project and tool recorded once, after the removals no removed
/// key is recorded, every other key reads as before, and no key is recorded
/// twice.
pub proof fn law_removals_clear_keys(s: Seq<InstalledTool>, keys: Seq<(Seq<char>, Seq<char>)>)
    requires
        keys_unique(s),
    ensures
        keys_unique(removed_all(s, keys)),
        forall|i: int| 0 <= i < keys.len() ==> lookup(removed_all(s, keys), (#[trigger] keys[i]).0, keys[i].1) is None,
        forall|p: Seq<char>, t: Seq<char>|
            !keys.contains((p, t)) ==> lookup(#[trigger] removed_all(s, keys), p, t) == lookup(s, p, t),
    decreases keys.len(),
{
    if keys.len() > 0 {
        let prev = keys.drop_last();
        let k = keys.last();
        law_removals_clear_keys(s, prev);
        let s1 = removed_all(s, prev);
        law_remove_keeps_keys_unique(s1, k.0, k.1);
        law_lookup_after_remove(s1, k.0, k.1);
        assert forall|i: int| 0 <= i < keys.len() implies lookup(
            removed_all(s, keys),
            (#[trigger] keys[i]).0,
            keys[i].1,
        ) is None by {
            if i < keys.len() - 1 {
                assert(keys[i] == prev[i]);
                if !(keys[i].0 == k.0 && keys[i].1 == k.1) {
                    law_remove_keeps_other_keys(s1, k.0, k.1, keys[i].0, keys[i].1);
                }
            }
        }
        assert forall|p: Seq<char>, t: Seq<char>|
            !keys.contains((p, t)) implies lookup(#[trigger] removed_all(s, keys), p, t) == lookup(s, p, t) by {
            assert(!prev.contains((p, t))) by {
                if prev.contains((p, t)) {
                    let j = choose|j: int| 0 <= j < prev.len() && prev[j] == (p, t);
                    assert(keys[j] == (p, t));
                }
            }
            assert(keys[keys.len() - 1] == k);
            law_remove_keeps_other_keys(s1, k.0, k.1, p, t);
        }
    }
}

} // verus!
