//! The local record of installed tools and the operations that read and
//! update it.
use vstd::prelude::*;

use crate::text::{copy_opt, push_char, text_eq, append_text};

verus! {

broadcast use vstd::seq_lib::group_seq_properties;

/// One installed tool as recorded in the state file.
pub struct InstalledTool {
    pub project_slug: String,
    pub tool_slug: String,
    pub version: Option<String>,
    pub sha256: Option<String>,
    pub path: String,
    pub installed_at: String,
    pub auto_dependency: bool,
    pub installed_by: Option<String>,
}

impl Clone for InstalledTool {
    fn clone(&self) -> (r: Self)
        ensures
            r == *self,
    {
        InstalledTool {
            project_slug: self.project_slug.clone(),
            tool_slug: self.tool_slug.clone(),
            version: copy_opt(&self.version),
            sha256: copy_opt(&self.sha256),
            path: self.path.clone(),
            installed_at: self.installed_at.clone(),
            auto_dependency: self.auto_dependency,
            installed_by: copy_opt(&self.installed_by),
        }
    }
}

/// The whole state file: a format version and the installed tools in order.
pub struct StateFile {
    pub version: u32,
    pub installed: Vec<InstalledTool>,
}

/// The key under which a tool is recorded as the installer of its
/// dependencies: `project/tool`.
pub open spec fn tool_key(project: Seq<char>, tool: Seq<char>) -> Seq<char> {
    project + seq!['/'] + tool
}

/// Whether `t` is the record of tool `tool` of project `project`.
pub open spec fn has_key(t: InstalledTool, project: Seq<char>, tool: Seq<char>) -> bool {
    t.project_slug@ == project && t.tool_slug@ == tool
}

/// Whether two records are for the same project and tool.
pub open spec fn same_key(a: InstalledTool, b: InstalledTool) -> bool {
    has_key(a, b.project_slug@, b.tool_slug@)
}

/// The index of the first record for `project`/`tool`, if any.
pub open spec fn position(s: Seq<InstalledTool>, project: Seq<char>, tool: Seq<char>) -> Option<int>
    decreases s.len(),
{
    if s.len() == 0 {
        None
    } else if has_key(s[0], project, tool) {
        Some(0)
    } else {
        match position(s.drop_first(), project, tool) {
            Some(i) => Some(i + 1),
            None => None,
        }
    }
}

/// The first record for `project`/`tool`, if any.
pub open spec fn lookup(s: Seq<InstalledTool>, project: Seq<char>, tool: Seq<char>) -> Option<
    InstalledTool,
> {
    match position(s, project, tool) {
        Some(i) => Some(s[i]),
        None => None,
    }
}

/// The records after `upsert(t)`: the first record with `t`'s key is
/// replaced by `t`, or `t` is appended when there is none.
pub open spec fn upserted(s: Seq<InstalledTool>, t: InstalledTool) -> Seq<InstalledTool> {
    match position(s, t.project_slug@, t.tool_slug@) {
        Some(i) => s.update(i, t),
        None => s.push(t),
    }
}

/// The records after removing the first record for `project`/`tool`.
pub open spec fn removed(s: Seq<InstalledTool>, project: Seq<char>, tool: Seq<char>) -> Seq<
    InstalledTool,
> {
    match position(s, project, tool) {
        Some(i) => s.remove(i),
        None => s,
    }
}

/// Whether `t` was recorded as installed by the tool with key `key`.
pub open spec fn installed_by_key(t: InstalledTool, key: Seq<char>) -> bool {
    match t.installed_by {
        Some(b) => b@ == key,
        None => false,
    }
}

/// The records that were installed by `project`/`tool`, in order.
pub open spec fn installed_by_tool(s: Seq<InstalledTool>, project: Seq<char>, tool: Seq<char>) -> Seq<
    InstalledTool,
> {
    s.filter(|t: InstalledTool| installed_by_key(t, tool_key(project, tool)))
}

/// No two records share a project and tool.
pub open spec fn keys_unique(s: Seq<InstalledTool>) -> bool {
    forall|i: int, j: int| 0 <= i < s.len() && 0 <= j < s.len() && i != j ==> !same_key(s[i], s[j])
}

/// What `position` says, index by index.
pub proof fn lemma_position(s: Seq<InstalledTool>, project: Seq<char>, tool: Seq<char>)
    ensures
        match position(s, project, tool) {
            Some(i) => 0 <= i < s.len() && has_key(s[i], project, tool) && forall|j: int|
                0 <= j < i ==> !has_key(#[trigger] s[j], project, tool),
            None => forall|j: int| 0 <= j < s.len() ==> !has_key(#[trigger] s[j], project, tool),
        },
    decreases s.len(),
{
    if s.len() > 0 && !has_key(s[0], project, tool) {
        lemma_position(s.drop_first(), project, tool);
        match position(s.drop_first(), project, tool) {
            Some(i) => {
                assert forall|j: int| 0 <= j < i + 1 implies !has_key(#[trigger] s[j], project, tool) by {
                    if j > 0 {
                        assert(s[j] == s.drop_first()[j - 1]);
                    }
                }
            },
            None => {
                assert forall|j: int| 0 <= j < s.len() implies !has_key(#[trigger] s[j], project, tool) by {
                    if j > 0 {
                        assert(s[j] == s.drop_first()[j - 1]);
                    }
                }
            },
        }
    }
}

/// `position` is determined by the first matching index.
pub proof fn lemma_position_at(s: Seq<InstalledTool>, project: Seq<char>, tool: Seq<char>, i: int)
    requires
        0 <= i <= s.len(),
        forall|j: int| 0 <= j < i ==> !has_key(#[trigger] s[j], project, tool),
        i < s.len() ==> has_key(s[i], project, tool),
    ensures
        position(s, project, tool) == (if i < s.len() { Some(i) } else { None::<int> }),
{
    lemma_position(s, project, tool);
    match position(s, project, tool) {
        Some(k) => {
            if k < i {
                assert(!has_key(s[k], project, tool));
            }
            if k > i {
                assert(!has_key(s[i], project, tool));
            }
        },
        None => {
            if i < s.len() {
                assert(!has_key(s[i], project, tool));
            }
        },
    }
}

/// Reading a key back after `upsert` gives the record that was written.
pub proof fn law_lookup_after_upsert(s: Seq<InstalledTool>, t: InstalledTool)
    ensures
        lookup(upserted(s, t), t.project_slug@, t.tool_slug@) == Some(t),
{
    let p = t.project_slug@;
    let q = t.tool_slug@;
    lemma_position(s, p, q);
    let s2 = upserted(s, t);
    match position(s, p, q) {
        Some(i) => {
            assert forall|j: int| 0 <= j < i implies !has_key(#[trigger] s2[j], p, q) by {
                assert(s2[j] == s[j]);
            }
            lemma_position_at(s2, p, q, i);
        },
        None => {
            assert forall|j: int| 0 <= j < s.len() implies !has_key(#[trigger] s2[j], p, q) by {
                assert(s2[j] == s[j]);
            }
            lemma_position_at(s2, p, q, s.len() as int);
        },
    }
}

/// `upsert` leaves what every other key reads unchanged.
pub proof fn law_upsert_keeps_other_keys(
    s: Seq<InstalledTool>,
    t: InstalledTool,
    project: Seq<char>,
    tool: Seq<char>,
)
    requires
        !(project == t.project_slug@ && tool == t.tool_slug@),
    ensures
        lookup(upserted(s, t), project, tool) == lookup(s, project, tool),
{
    let s2 = upserted(s, t);
    lemma_position(s, t.project_slug@, t.tool_slug@);
    lemma_position(s, project, tool);
    assert(!has_key(t, project, tool));
    assert forall|j: int| 0 <= j < s.len() implies has_key(#[trigger] s2[j], project, tool) == has_key(
        s[j],
        project,
        tool,
    ) by {
        match position(s, t.project_slug@, t.tool_slug@) {
            Some(i) => {
                if j == i {
                    assert(s2[j] == t);
                } else {
                    assert(s2[j] == s[j]);
                }
            },
            None => {
                assert(s2[j] == s[j]);
            },
        }
    }
    match position(s, project, tool) {
        Some(k) => {
            assert forall|j: int| 0 <= j < k implies !has_key(#[trigger] s2[j], project, tool) by {
                assert(!has_key(s[j], project, tool));
            }
            assert(has_key(s2[k], project, tool));
            lemma_position_at(s2, project, tool, k);
            match position(s, t.project_slug@, t.tool_slug@) {
                Some(i) => {
                    assert(k != i);
                    assert(s2[k] == s[k]);
                },
                None => {
                    assert(s2[k] == s[k]);
                },
            }
        },
        None => {
            assert forall|j: int| 0 <= j < s2.len() implies !has_key(#[trigger] s2[j], project, tool) by {
                if j < s.len() {
                    assert(!has_key(s[j], project, tool));
                } else {
                    assert(s2[j] == t);
                }
            }
            lemma_position_at(s2, project, tool, s2.len() as int);
        },
    }
}

/// `upsert` never records a project and tool twice.
pub proof fn law_upsert_keeps_keys_unique(s: Seq<InstalledTool>, t: InstalledTool)
    requires
        keys_unique(s),
    ensures
        keys_unique(upserted(s, t)),
{
    let s2 = upserted(s, t);
    lemma_position(s, t.project_slug@, t.tool_slug@);
    match position(s, t.project_slug@, t.tool_slug@) {
        Some(i) => {
            assert forall|a: int, b: int|
                0 <= a < s2.len() && 0 <= b < s2.len() && a != b implies !same_key(
                #[trigger] s2[a],
                #[trigger] s2[b],
            ) by {
                if a == i {
                    assert(!same_key(s[a], s[b]));
                } else if b == i {
                    assert(!same_key(s[a], s[b]));
                } else {
                    assert(!same_key(s[a], s[b]));
                }
            }
        },
        None => {
            assert forall|a: int, b: int|
                0 <= a < s2.len() && 0 <= b < s2.len() && a != b implies !same_key(
                #[trigger] s2[a],
                #[trigger] s2[b],
            ) by {
                if a == s.len() {
                    assert(!has_key(s[b], t.project_slug@, t.tool_slug@));
                } else if b == s.len() {
                    assert(!has_key(s[a], t.project_slug@, t.tool_slug@));
                } else {
                    assert(!same_key(s[a], s[b]));
                }
            }
        },
    }
}

/// Writing the same record twice is the same as writing it once.
pub proof fn law_upsert_idempotent(s: Seq<InstalledTool>, t: InstalledTool)
    ensures
        upserted(upserted(s, t), t) == upserted(s, t),
{
    let s1 = upserted(s, t);
    lemma_position(s, t.project_slug@, t.tool_slug@);
    lemma_position(s1, t.project_slug@, t.tool_slug@);
    law_lookup_after_upsert(s, t);
    match position(s1, t.project_slug@, t.tool_slug@) {
        Some(k) => {
            assert(s1[k] == t);
            assert(s1.update(k, t) =~= s1);
        },
        None => {},
    }
}

/// With each project and tool recorded once, nothing of a removed key is left.
pub proof fn law_lookup_after_remove(s: Seq<InstalledTool>, project: Seq<char>, tool: Seq<char>)
    requires
        keys_unique(s),
    ensures
        lookup(removed(s, project, tool), project, tool) is None,
{
    let s2 = removed(s, project, tool);
    lemma_position(s, project, tool);
    match position(s, project, tool) {
        Some(i) => {
            assert forall|j: int| 0 <= j < s2.len() implies !has_key(#[trigger] s2[j], project, tool) by {
                if j < i {
                    assert(s2[j] == s[j]);
                } else {
                    assert(s2[j] == s[j + 1]);
                    assert(!same_key(s[j + 1], s[i]));
                }
            }
            lemma_position_at(s2, project, tool, s2.len() as int);
        },
        None => {},
    }
}

/// `remove` leaves what every other key reads unchanged.
pub proof fn law_remove_keeps_other_keys(
    s: Seq<InstalledTool>,
    project: Seq<char>,
    tool: Seq<char>,
    other_project: Seq<char>,
    other_tool: Seq<char>,
)
    requires
        !(project == other_project && tool == other_tool),
    ensures
        lookup(removed(s, project, tool), other_project, other_tool) == lookup(
            s,
            other_project,
            other_tool,
        ),
{
    let s2 = removed(s, project, tool);
    lemma_position(s, project, tool);
    lemma_position(s, other_project, other_tool);
    match position(s, project, tool) {
        Some(i) => {
            assert(!has_key(s[i], other_project, other_tool));
            match position(s, other_project, other_tool) {
                Some(k) => {
                    let k2 = if k < i { k } else { k - 1 };
                    assert forall|j: int| 0 <= j < k2 implies !has_key(
                        #[trigger] s2[j],
                        other_project,
                        other_tool,
                    ) by {
                        if j < i {
                            assert(s2[j] == s[j]);
                        } else {
                            assert(s2[j] == s[j + 1]);
                        }
                    }
                    assert(s2[k2] == s[k]);
                    lemma_position_at(s2, other_project, other_tool, k2);
                },
                None => {
                    assert forall|j: int| 0 <= j < s2.len() implies !has_key(
                        #[trigger] s2[j],
                        other_project,
                        other_tool,
                    ) by {
                        if j < i {
                            assert(s2[j] == s[j]);
                        } else {
                            assert(s2[j] == s[j + 1]);
                        }
                    }
                    lemma_position_at(s2, other_project, other_tool, s2.len() as int);
                },
            }
        },
        None => {},
    }
}

/// `remove` never records a project and tool twice.
pub proof fn law_remove_keeps_keys_unique(s: Seq<InstalledTool>, project: Seq<char>, tool: Seq<char>)
    requires
        keys_unique(s),
    ensures
        keys_unique(removed(s, project, tool)),
{
    let s2 = removed(s, project, tool);
    lemma_position(s, project, tool);
    match position(s, project, tool) {
        Some(i) => {
            assert forall|a: int, b: int|
                0 <= a < s2.len() && 0 <= b < s2.len() && a != b implies !same_key(
                #[trigger] s2[a],
                #[trigger] s2[b],
            ) by {
                let a2 = if a < i { a } else { a + 1 };
                let b2 = if b < i { b } else { b + 1 };
                assert(s2[a] == s[a2]);
                assert(s2[b] == s[b2]);
                assert(!same_key(s[a2], s[b2]));
            }
        },
        None => {},
    }
}

/// Removing a record undoes an `upsert` of it: the records are those that
/// removing it alone leaves, and before the removal it reads as written.
pub proof fn law_remove_undoes_upsert(s: Seq<InstalledTool>, t: InstalledTool)
    ensures
        removed(upserted(s, t), t.project_slug@, t.tool_slug@) == removed(
            s,
            t.project_slug@,
            t.tool_slug@,
        ),
        lookup(upserted(s, t), t.project_slug@, t.tool_slug@) == Some(t),
{
    let p = t.project_slug@;
    let q = t.tool_slug@;
    let s1 = upserted(s, t);
    law_lookup_after_upsert(s, t);
    lemma_position(s, p, q);
    lemma_position(s1, p, q);
    match position(s, p, q) {
        Some(i) => {
            assert forall|j: int| 0 <= j < i implies !has_key(#[trigger] s1[j], p, q) by {
                assert(s1[j] == s[j]);
            }
            lemma_position_at(s1, p, q, i);
            assert(s1.remove(i) =~= s.remove(i));
        },
        None => {
            assert forall|j: int| 0 <= j < s.len() implies !has_key(#[trigger] s1[j], p, q) by {
                assert(s1[j] == s[j]);
            }
            lemma_position_at(s1, p, q, s.len() as int);
            assert(s1.remove(s.len() as int) =~= s);
        },
    }
}

fn matches_key(t: &InstalledTool, project_slug: &str, tool_slug: &str) -> (r: bool)
    ensures
        r == has_key(*t, project_slug@, tool_slug@),
{
    text_eq(t.project_slug.as_str(), project_slug) && text_eq(t.tool_slug.as_str(), tool_slug)
}

/// Builds the `project/tool` key.
pub fn make_tool_key(project_slug: &str, tool_slug: &str) -> (r: String)
    ensures
        r@ == tool_key(project_slug@, tool_slug@),
{
    let mut key = String::new();
    append_text(&mut key, project_slug);
    push_char(&mut key, '/');
    append_text(&mut key, tool_slug);
    key
}

fn is_installed_by(t: &InstalledTool, key: &String) -> (r: bool)
    ensures
        r == installed_by_key(*t, key@),
{
    match &t.installed_by {
        Some(b) => *b == *key,
        None => false,
    }
}

impl StateFile {
    /// A state with no tools installed, at format version 1.
    pub fn empty() -> (r: Self)
        ensures
            r.version == 1,
            r.installed@ == Seq::<InstalledTool>::empty(),
    {
        StateFile { version: 1, installed: Vec::new() }
    }

    fn index_of(&self, project_slug: &str, tool_slug: &str) -> (r: Option<usize>)
        ensures
            match r {
                Some(i) => i < self.installed@.len() && position(
                    self.installed@,
                    project_slug@,
                    tool_slug@,
                ) == Some(i as int),
                None => position(self.installed@, project_slug@, tool_slug@) is None,
            },
    {
        let n = self.installed.len();
        let mut i: usize = 0;
        while i < n
            invariant
                n == self.installed@.len(),
                i <= n,
                forall|j: int|
                    0 <= j < i ==> !has_key(#[trigger] self.installed@[j], project_slug@, tool_slug@),
            decreases n - i,
        {
            if matches_key(&self.installed[i], project_slug, tool_slug) {
                proof {
                    lemma_position_at(self.installed@, project_slug@, tool_slug@, i as int);
                }
                return Some(i);
            }
            i = i + 1;
        }
        proof {
            lemma_position_at(self.installed@, project_slug@, tool_slug@, n as int);
        }
        None
    }

    /// The first record for `project_slug`/`tool_slug`.
    pub fn find(&self, project_slug: &str, tool_slug: &str) -> (r: Option<&InstalledTool>)
        ensures
            match r {
                Some(t) => lookup(self.installed@, project_slug@, tool_slug@) == Some(*t),
                None => lookup(self.installed@, project_slug@, tool_slug@) is None,
            },
    {
        match self.index_of(project_slug, tool_slug) {
            Some(i) => Some(&self.installed[i]),
            None => None,
        }
    }

    /// Records `tool`, replacing the first record with the same project and
    /// tool, or appending it when there is none.
    pub fn upsert(&mut self, tool: InstalledTool)
        ensures
            final(self).version == old(self).version,
            final(self).installed@ == upserted(old(self).installed@, tool),
    {
        let pos = self.index_of(tool.project_slug.as_str(), tool.tool_slug.as_str());
        match pos {
            Some(i) => {
                self.installed.set(i, tool);
            },
            None => {
                self.installed.push(tool);
            },
        }
    }

    /// Removes and returns the first record for `project_slug`/`tool_slug`.
    pub fn remove(&mut self, project_slug: &str, tool_slug: &str) -> (r: Option<InstalledTool>)
        ensures
            final(self).version == old(self).version,
            final(self).installed@ == removed(old(self).installed@, project_slug@, tool_slug@),
            r == lookup(old(self).installed@, project_slug@, tool_slug@),
    {
        match self.index_of(project_slug, tool_slug) {
            Some(i) => Some(self.installed.remove(i)),
            None => None,
        }
    }

    /// The records that `project_slug`/`tool_slug` installed as its
    /// dependencies, in state order.
    pub fn dependencies_installed_by(&self, project_slug: &str, tool_slug: &str) -> (r: Vec<
        &InstalledTool,
    >)
        ensures
            r@.map_values(|t: &InstalledTool| *t) == installed_by_tool(
                self.installed@,
                project_slug@,
                tool_slug@,
            ),
    {
        let key = make_tool_key(project_slug, tool_slug);
        let ghost pred = |t: InstalledTool| installed_by_key(t, tool_key(project_slug@, tool_slug@));
        let mut r: Vec<&InstalledTool> = Vec::new();
        let n = self.installed.len();
        let mut i: usize = 0;
        assert(self.installed@.take(0) =~= Seq::<InstalledTool>::empty());
        while i < n
            invariant
                n == self.installed@.len(),
                i <= n,
                key@ == tool_key(project_slug@, tool_slug@),
                pred == (|t: InstalledTool| installed_by_key(t, tool_key(project_slug@, tool_slug@))),
                r@.map_values(|t: &InstalledTool| *t) == self.installed@.take(i as int).filter(pred),
            decreases n - i,
        {
            let t = &self.installed[i];
            let ghost before = r@;
            assert(self.installed@.take(i + 1) =~= self.installed@.take(i as int).push(*t));
            proof {
                self.installed@.take(i as int).lemma_filter_push(*t, pred);
            }
            if is_installed_by(t, &key) {
                r.push(t);
                assert(r@.map_values(|t: &InstalledTool| *t) =~= before.map_values(
                    |t: &InstalledTool| *t,
                ).push(*t));
            }
            i = i + 1;
        }
        assert(self.installed@.take(n as int) =~= self.installed@);
        r
    }

    /// The records that depend on `project_slug`/`tool_slug`: those whose
    /// recorded installer is that tool, in state order.
    pub fn dependents_of(&self, project_slug: &str, tool_slug: &str) -> (r: Vec<&InstalledTool>)
        ensures
            r@.map_values(|t: &InstalledTool| *t) == installed_by_tool(
                self.installed@,
                project_slug@,
                tool_slug@,
            ),
    {
        self.dependencies_installed_by(project_slug, tool_slug)
    }
}

} // verus!
