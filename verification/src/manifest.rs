//! The registry of stored environments: project -> environment -> entry.

use crate::keyed::{
    has_key, keyed_map, keys_distinct, lemma_keyed_absent, lemma_keyed_empty, lemma_keyed_index,
    lemma_keyed_push, lemma_keyed_remove, lemma_keyed_update,
};
use vstd::prelude::*;

verus! {

/// The model of an entry: its file name and the hash of its blob.
pub type EntryView = (Seq<char>, Seq<char>);

/// The model of the environments of one project.
pub type EnvsView = Map<Seq<char>, EntryView>;

/// The model of a manifest: project -> environment -> entry.
pub type ManifestView = Map<Seq<char>, EnvsView>;

/// Where a stored environment lives: the file name it is written to, and the
/// hash of the encrypted blob that holds it.
#[derive(Debug)]
pub struct EnvEntry {
    pub filename: String,
    pub hash: String,
}

impl Clone for EnvEntry {
    fn clone(&self) -> (r: Self)
        ensures
            r@ == self@,
    {
        EnvEntry { filename: self.filename.clone(), hash: self.hash.clone() }
    }
}

impl View for EnvEntry {
    type V = EntryView;

    open spec fn view(&self) -> EntryView {
        (self.filename@, self.hash@)
    }
}

/// An environment name with its entry.
#[derive(Clone, Debug)]
pub struct EnvSlot {
    pub name: String,
    pub entry: EnvEntry,
}

impl View for EnvSlot {
    type V = (Seq<char>, EntryView);

    open spec fn view(&self) -> (Seq<char>, EntryView) {
        (self.name@, self.entry@)
    }
}

/// The named pairs of a list of slots.
pub open spec fn slots_view(s: Seq<EnvSlot>) -> Seq<(Seq<char>, EntryView)> {
    s.map_values(|slot: EnvSlot| slot@)
}

/// A project name with its environments.
#[derive(Clone, Debug)]
pub struct ProjectEnvs {
    pub name: String,
    pub envs: Vec<EnvSlot>,
}

impl View for ProjectEnvs {
    type V = (Seq<char>, EnvsView);

    open spec fn view(&self) -> (Seq<char>, EnvsView) {
        (self.name@, keyed_map(slots_view(self.envs@)))
    }
}

/// The named pairs of a list of projects.
pub open spec fn projects_view(s: Seq<ProjectEnvs>) -> Seq<(Seq<char>, EnvsView)> {
    s.map_values(|p: ProjectEnvs| p@)
}

/// Project names are distinct, and within each project environment names are.
pub open spec fn projects_wf(s: Seq<ProjectEnvs>) -> bool {
    &&& keys_distinct(projects_view(s))
    &&& forall|i: int| 0 <= i < s.len() ==> keys_distinct(slots_view(#[trigger] s[i].envs@))
}

/// The registry of stored environments.
pub struct Manifest {
    projects: Vec<ProjectEnvs>,
}

impl View for Manifest {
    type V = ManifestView;

    closed spec fn view(&self) -> ManifestView {
        keyed_map(projects_view(self.projects@))
    }
}

/// Some environment of `m` is stored under the blob hash `hash`.
pub open spec fn hash_in_use(m: ManifestView, hash: Seq<char>) -> bool {
    exists|p: Seq<char>, e: Seq<char>|
        #![trigger m[p][e]]
        m.contains_key(p) && m[p].contains_key(e) && m[p][e].1 == hash
}

/// The entry of environment `env` of project `project`, if there is one.
pub open spec fn lookup(m: ManifestView, project: Seq<char>, env: Seq<char>) -> Option<EntryView> {
    if m.contains_key(project) && m[project].contains_key(env) {
        Some(m[project][env])
    } else {
        None
    }
}

/// `m` with environment `env` of project `project` set to `entry`.
pub open spec fn put_spec(m: ManifestView, project: Seq<char>, env: Seq<char>, entry: EntryView) -> ManifestView {
    let envs = if m.contains_key(project) { m[project] } else { Map::empty() };
    m.insert(project, envs.insert(env, entry))
}

/// `m` without environment `env` of project `project`; a project left
/// without environments is dropped.
pub open spec fn remove_spec(m: ManifestView, project: Seq<char>, env: Seq<char>) -> ManifestView {
    if m.contains_key(project) {
        let envs = m[project].remove(env);
        if envs == Map::<Seq<char>, EntryView>::empty() {
            m.remove(project)
        } else {
            m.insert(project, envs)
        }
    } else {
        m
    }
}

/// The blob that becomes unreferenced when `old` turns into `new` by
/// replacing or removing the entry `(project, env)`, if any: the entry's
/// former hash, provided it differs from `kept` and nothing in `new` uses it.
pub open spec fn orphaned_hash(old: ManifestView, new: ManifestView, project: Seq<char>, env: Seq<char>, kept: Option<Seq<char>>) -> Option<Seq<char>> {
    match lookup(old, project, env) {
        Some(entry) => if kept != Some(entry.1) && !hash_in_use(new, entry.1) {
            Some(entry.1)
        } else {
            None
        },
        None => None,
    }
}

/// Some environment of some project in `s` carries the hash `hash`.
pub open spec fn raw_hash_used(s: Seq<ProjectEnvs>, hash: Seq<char>) -> bool {
    exists|i: int, j: int|
        0 <= i < s.len() && 0 <= j < s[i].envs@.len() && (#[trigger] s[i].envs@[j]).entry.hash@ == hash
}

/// The view of project `i` of a well-formed list.
proof fn lemma_project_at(s: Seq<ProjectEnvs>, i: int)
    requires
        projects_wf(s),
        0 <= i < s.len(),
    ensures
        keyed_map(projects_view(s)).contains_key(s[i].name@),
        keyed_map(projects_view(s))[s[i].name@] == keyed_map(slots_view(s[i].envs@)),
{
    assert(projects_view(s)[i] == s[i]@);
    lemma_keyed_index(projects_view(s), i);
}

/// The view of environment `j` of a well-formed list of slots.
proof fn lemma_slot_at(s: Seq<EnvSlot>, j: int)
    requires
        keys_distinct(slots_view(s)),
        0 <= j < s.len(),
    ensures
        keyed_map(slots_view(s)).contains_key(s[j].name@),
        keyed_map(slots_view(s))[s[j].name@] == s[j].entry@,
{
    assert(slots_view(s)[j] == s[j]@);
    lemma_keyed_index(slots_view(s), j);
}

/// A hash is in use in the model exactly when some slot carries it.
proof fn lemma_hash_in_use_raw(s: Seq<ProjectEnvs>, hash: Seq<char>)
    requires
        projects_wf(s),
    ensures
        hash_in_use(keyed_map(projects_view(s)), hash) == raw_hash_used(s, hash),
{
    let m = keyed_map(projects_view(s));
    if raw_hash_used(s, hash) {
        let (i, j) = choose|i: int, j: int|
            0 <= i < s.len() && 0 <= j < s[i].envs@.len() && (#[trigger] s[i].envs@[j]).entry.hash@ == hash;
        lemma_project_at(s, i);
        lemma_slot_at(s[i].envs@, j);
        let p = s[i].name@;
        let e = s[i].envs@[j].name@;
        assert(m.contains_key(p) && m[p].contains_key(e) && m[p][e].1 == hash);
    }
    if hash_in_use(m, hash) {
        let (p, e) = choose|p: Seq<char>, e: Seq<char>|
            #![trigger m[p][e]]
            m.contains_key(p) && m[p].contains_key(e) && m[p][e].1 == hash;
        let i = choose|i: int| 0 <= i < projects_view(s).len() && projects_view(s)[i].0 == p;
        assert(projects_view(s)[i] == s[i]@);
        lemma_project_at(s, i);
        let sv = slots_view(s[i].envs@);
        let j = choose|j: int| 0 <= j < sv.len() && sv[j].0 == e;
        assert(sv[j] == s[i].envs@[j]@);
        lemma_slot_at(s[i].envs@, j);
        assert(s[i].envs@[j].entry.hash@ == hash);
    }
}

/// Position of the project named `name`, if any.
fn find_project(projects: &Vec<ProjectEnvs>, name: &String) -> (r: Option<usize>)
    ensures
        r matches Some(i) ==> i < projects@.len() && projects@[i as int].name@ == name@,
        r is None ==> !has_key(projects_view(projects@), name@),
{
    let mut i: usize = 0;
    while i < projects.len()
        invariant
            i <= projects@.len(),
            forall|j: int| 0 <= j < i ==> projects@[j].name@ != name@,
        decreases projects@.len() - i,
    {
        if projects[i].name == *name {
            return Some(i);
        }
        i = i + 1;
    }
    proof {
        assert forall|j: int| 0 <= j < projects_view(projects@).len() implies projects_view(projects@)[j].0 != name@ by {
            assert(projects_view(projects@)[j] == projects@[j]@);
        }
    }
    None
}

/// Position of the environment named `name`, if any.
fn find_env(envs: &Vec<EnvSlot>, name: &String) -> (r: Option<usize>)
    ensures
        r matches Some(i) ==> i < envs@.len() && envs@[i as int].name@ == name@,
        r is None ==> !has_key(slots_view(envs@), name@),
{
    let mut i: usize = 0;
    while i < envs.len()
        invariant
            i <= envs@.len(),
            forall|j: int| 0 <= j < i ==> envs@[j].name@ != name@,
        decreases envs@.len() - i,
    {
        if envs[i].name == *name {
            return Some(i);
        }
        i = i + 1;
    }
    proof {
        assert forall|j: int| 0 <= j < slots_view(envs@).len() implies slots_view(envs@)[j].0 != name@ by {
            assert(slots_view(envs@)[j] == envs@[j]@);
        }
    }
    None
}

impl Manifest {
    #[verifier::type_invariant]
    spec fn well_formed(self) -> bool {
        projects_wf(self.projects@)
    }

    /// An empty manifest.
    pub fn new() -> (m: Manifest)
        ensures
            m@ == Map::<Seq<char>, EnvsView>::empty(),
    {
        let m = Manifest { projects: Vec::new() };
        proof {
            lemma_keyed_empty(projects_view(m.projects@));
        }
        m
    }

    /// Whether some stored environment refers to the blob `hash`.
    pub fn is_hash_used(&self, hash: &str) -> (r: bool)
        ensures
            r == hash_in_use(self@, hash@),
    {
        proof {
            use_type_invariant(self);
            lemma_hash_in_use_raw(self.projects@, hash@);
        }
        let target: String = hash.to_owned();
        let mut i: usize = 0;
        while i < self.projects.len()
            invariant
                i <= self.projects@.len(),
                target@ == hash@,
                hash_in_use(self@, hash@) == raw_hash_used(self.projects@, hash@),
                forall|a: int, b: int|
                    0 <= a < i && 0 <= b < self.projects@[a].envs@.len() ==> (#[trigger] self.projects@[a].envs@[b]).entry.hash@ != hash@,
            decreases self.projects@.len() - i,
        {
            let envs = &self.projects[i].envs;
            let mut j: usize = 0;
            while j < envs.len()
                invariant
                    i < self.projects@.len(),
                    envs == &self.projects@[i as int].envs,
                    j <= envs@.len(),
                    target@ == hash@,
                    hash_in_use(self@, hash@) == raw_hash_used(self.projects@, hash@),
                    forall|b: int| 0 <= b < j ==> (#[trigger] envs@[b]).entry.hash@ != hash@,
                decreases envs@.len() - j,
            {
                if envs[j].entry.hash == target {
                    assert(self.projects@[i as int].envs@[j as int].entry.hash@ == hash@);
                    return true;
                }
                j = j + 1;
            }
            i = i + 1;
        }
        false
    }
}

impl Manifest {
    /// The entry of environment `env` of project `project`, if there is one.
    pub fn get_entry(&self, project: &str, env: &str) -> (r: Option<EnvEntry>)
        ensures
            r matches Some(x) ==> lookup(self@, project@, env@) == Some(x@),
            r is None ==> lookup(self@, project@, env@) is None,
    {
        proof {
            use_type_invariant(self);
        }
        let p: String = project.to_owned();
        let e: String = env.to_owned();
        match find_project(&self.projects, &p) {
            None => {
                proof {
                    lemma_keyed_absent(projects_view(self.projects@), p@);
                }
                None
            },
            Some(i) => {
                proof {
                    lemma_project_at(self.projects@, i as int);
                }
                let envs = &self.projects[i].envs;
                match find_env(envs, &e) {
                    None => {
                        proof {
                            lemma_keyed_absent(slots_view(envs@), e@);
                        }
                        None
                    },
                    Some(j) => {
                        proof {
                            lemma_slot_at(envs@, j as int);
                        }
                        Some(envs[j].entry.clone())
                    },
                }
            },
        }
    }

    /// The blob hash of environment `env` of project `project`, if there is one.
    pub fn get_hash(&self, project: &str, env: &str) -> (r: Option<String>)
        ensures
            r matches Some(h) ==> (lookup(self@, project@, env@) matches Some(x) && x.1 == h@),
            r is None ==> lookup(self@, project@, env@) is None,
    {
        match self.get_entry(project, env) {
            Some(entry) => Some(entry.hash),
            None => None,
        }
    }
}

/// Sets environment `name` of a list of slots to `entry`.
fn set_slot(envs: &mut Vec<EnvSlot>, name: String, entry: EnvEntry)
    requires
        keys_distinct(slots_view(old(envs)@)),
    ensures
        keys_distinct(slots_view(final(envs)@)),
        keyed_map(slots_view(final(envs)@)) == keyed_map(slots_view(old(envs)@)).insert(name@, entry@),
{
    let ghost old_slots = slots_view(envs@);
    let ghost k = name@;
    let ghost v = entry@;
    match find_env(envs, &name) {
        Some(j) => {
            let slot = EnvSlot { name, entry };
            envs.set(j, slot);
            proof {
                assert(slots_view(envs@) =~= old_slots.update(j as int, (old_slots[j as int].0, v)));
                lemma_keyed_update(old_slots, j as int, v);
            }
        },
        None => {
            envs.push(EnvSlot { name, entry });
            proof {
                assert(slots_view(envs@) =~= old_slots.push((k, v)));
                lemma_keyed_push(old_slots, k, v);
            }
        },
    }
}

/// Removes environment `name` from a list of slots.
fn unset_slot(envs: &mut Vec<EnvSlot>, name: &String)
    requires
        keys_distinct(slots_view(old(envs)@)),
    ensures
        keys_distinct(slots_view(final(envs)@)),
        keyed_map(slots_view(final(envs)@)) == keyed_map(slots_view(old(envs)@)).remove(name@),
{
    let ghost old_slots = slots_view(envs@);
    match find_env(envs, name) {
        Some(j) => {
            let _ = envs.remove(j);
            proof {
                assert(slots_view(envs@) =~= old_slots.remove(j as int));
                lemma_keyed_remove(old_slots, j as int);
            }
        },
        None => {
            proof {
                lemma_keyed_absent(old_slots, name@);
                assert(keyed_map(old_slots).remove(name@) =~= keyed_map(old_slots));
            }
        },
    }
}

/// A list of slots is empty exactly when its map is.
proof fn lemma_slots_empty(s: Seq<EnvSlot>)
    requires
        keys_distinct(slots_view(s)),
    ensures
        (s.len() == 0) == (keyed_map(slots_view(s)) == Map::<Seq<char>, EntryView>::empty()),
{
    if s.len() == 0 {
        lemma_keyed_empty(slots_view(s));
    } else {
        lemma_slot_at(s, 0);
        assert(!Map::<Seq<char>, EntryView>::empty().contains_key(s[0].name@));
    }
}

impl Manifest {
    /// Sets environment `env` of project `project` to the given file name and
    /// blob hash, creating the project if needed. Returns the hash of the blob
    /// that the environment referred to before, if it changed and no
    /// environment refers to it any more (so that the blob can be pruned).
    pub fn put_entry(&mut self, project: &str, env: &str, filename: &str, hash: &str) -> (r: Option<String>)
        ensures
            final(self)@ == put_spec(old(self)@, project@, env@, (filename@, hash@)),
            r matches Some(h) ==> orphaned_hash(old(self)@, final(self)@, project@, env@, Some(hash@)) == Some(h@),
            r is None ==> orphaned_hash(old(self)@, final(self)@, project@, env@, Some(hash@)) is None,
    {
        proof {
            use_type_invariant(&*self);
        }
        let ghost old_view = self@;
        let old_hash = self.get_hash(project, env);
        let p: String = project.to_owned();
        let e: String = env.to_owned();
        let entry = EnvEntry { filename: filename.to_owned(), hash: hash.to_owned() };
        let ghost ev = entry@;
        let mut projects: Vec<ProjectEnvs> = Vec::new();
        std::mem::swap(&mut projects, &mut self.projects);
        let ghost old_projects = projects@;
        assert(projects_wf(old_projects));
        match find_project(&projects, &p) {
            Some(i) => {
                let mut pe = projects.remove(i);
                let ghost old_pe = pe;
                set_slot(&mut pe.envs, e, entry);
                projects.insert(i, pe);
                proof {
                    assert(projects@ =~= old_projects.update(i as int, pe));
                    lemma_project_at(old_projects, i as int);
                    assert(projects_view(projects@) =~= projects_view(old_projects).update(
                        i as int,
                        (projects_view(old_projects)[i as int].0, pe@.1),
                    ));
                    lemma_keyed_update(projects_view(old_projects), i as int, pe@.1);
                    assert forall|j: int| 0 <= j < projects@.len() implies keys_distinct(
                        slots_view(#[trigger] projects@[j].envs@),
                    ) by {
                        if j != i {
                            assert(projects@[j] == old_projects[j]);
                        }
                    }
                }
            },
            None => {
                let mut envs: Vec<EnvSlot> = Vec::new();
                proof {
                    lemma_keyed_empty(slots_view(envs@));
                }
                set_slot(&mut envs, e, entry);
                let ghost pname = p@;
                projects.push(ProjectEnvs { name: p, envs });
                proof {
                    let pe = projects@[projects@.len() - 1];
                    assert(projects_view(projects@) =~= projects_view(old_projects).push(pe@));
                    lemma_keyed_absent(projects_view(old_projects), pname);
                    lemma_keyed_push(projects_view(old_projects), pname, pe@.1);
                    assert forall|j: int| 0 <= j < projects@.len() implies keys_distinct(
                        slots_view(#[trigger] projects@[j].envs@),
                    ) by {
                        if j < old_projects.len() {
                            assert(projects@[j] == old_projects[j]);
                        }
                    }
                }
            },
        }
        self.projects = projects;
        assert(self@ == put_spec(old_view, project@, env@, ev));
        match old_hash {
            Some(h) => {
                if h != hash.to_owned() && !self.is_hash_used(h.as_str()) {
                    Some(h)
                } else {
                    None
                }
            },
            None => None,
        }
    }
}

impl Manifest {
    /// Removes environment `env` of project `project`; a project left without
    /// environments is removed too.
    pub fn remove_entry(&mut self, project: &str, env: &str)
        ensures
            final(self)@ == remove_spec(old(self)@, project@, env@),
    {
        proof {
            use_type_invariant(&*self);
        }
        let ghost old_view = self@;
        let p: String = project.to_owned();
        let e: String = env.to_owned();
        let mut projects: Vec<ProjectEnvs> = Vec::new();
        std::mem::swap(&mut projects, &mut self.projects);
        let ghost old_projects = projects@;
        assert(projects_wf(old_projects));
        match find_project(&projects, &p) {
            Some(i) => {
                let mut pe = projects.remove(i);
                proof {
                    lemma_project_at(old_projects, i as int);
                }
                unset_slot(&mut pe.envs, &e);
                proof {
                    lemma_slots_empty(pe.envs@);
                }
                if pe.envs.len() == 0 {
                    proof {
                        assert(projects@ =~= old_projects.remove(i as int));
                        assert(projects_view(projects@) =~= projects_view(old_projects).remove(i as int));
                        lemma_keyed_remove(projects_view(old_projects), i as int);
                        assert forall|j: int| 0 <= j < projects@.len() implies keys_distinct(
                            slots_view(#[trigger] projects@[j].envs@),
                        ) by {
                            let j2 = if j < i { j } else { j + 1 };
                            assert(projects@[j] == old_projects[j2]);
                        }
                    }
                } else {
                    projects.insert(i, pe);
                    proof {
                        assert(projects@ =~= old_projects.update(i as int, pe));
                        assert(projects_view(projects@) =~= projects_view(old_projects).update(
                            i as int,
                            (projects_view(old_projects)[i as int].0, pe@.1),
                        ));
                        lemma_keyed_update(projects_view(old_projects), i as int, pe@.1);
                        assert forall|j: int| 0 <= j < projects@.len() implies keys_distinct(
                            slots_view(#[trigger] projects@[j].envs@),
                        ) by {
                            if j != i {
                                assert(projects@[j] == old_projects[j]);
                            }
                        }
                    }
                }
            },
            None => {
                proof {
                    lemma_keyed_absent(projects_view(old_projects), p@);
                }
            },
        }
        self.projects = projects;
        assert(self@ == remove_spec(old_view, project@, env@));
    }

    /// Removes environment `env` of project `project`, if it exists. Returns
    /// the hash of its blob if no environment refers to that blob any more
    /// (so that the blob can be deleted).
    pub fn delete_entry(&mut self, project: &str, env: &str) -> (r: Option<String>)
        ensures
            lookup(old(self)@, project@, env@) is Some ==> final(self)@ == remove_spec(old(self)@, project@, env@),
            lookup(old(self)@, project@, env@) is None ==> final(self)@ == old(self)@,
            r matches Some(h) ==> orphaned_hash(old(self)@, final(self)@, project@, env@, None) == Some(h@),
            r is None ==> orphaned_hash(old(self)@, final(self)@, project@, env@, None) is None,
    {
        let hash = self.get_hash(project, env);
        if hash.is_some() {
            self.remove_entry(project, env);
        }
        match hash {
            Some(h) => {
                if !self.is_hash_used(h.as_str()) {
                    Some(h)
                } else {
                    None
                }
            },
            None => None,
        }
    }
}

/// `names` lists each key of `keys` exactly once.
pub open spec fn lists_each_once(names: Seq<String>, keys: Set<Seq<char>>) -> bool {
    &&& forall|i: int, j: int| 0 <= i < names.len() && 0 <= j < names.len() && i != j ==> names[i]@ != names[j]@
    &&& forall|k: Seq<char>| keys.contains(k) <==> exists|i: int| 0 <= i < names.len() && names[i]@ == k
}

/// Whether the environment names of a list of slots are distinct.
fn slots_distinct(envs: &Vec<EnvSlot>) -> (r: bool)
    ensures
        r == keys_distinct(slots_view(envs@)),
{
    let mut i: usize = 0;
    while i < envs.len()
        invariant
            i <= envs@.len(),
            forall|a: int, b: int| 0 <= a < i && 0 <= b < envs@.len() && a != b ==> envs@[a].name@ != envs@[b].name@,
        decreases envs@.len() - i,
    {
        let mut j: usize = 0;
        while j < envs.len()
            invariant
                i < envs@.len(),
                j <= envs@.len(),
                forall|a: int, b: int| 0 <= a < i && 0 <= b < envs@.len() && a != b ==> envs@[a].name@ != envs@[b].name@,
                forall|b: int| 0 <= b < j && b != i ==> envs@[i as int].name@ != envs@[b].name@,
            decreases envs@.len() - j,
        {
            if j != i && envs[i].name == envs[j].name {
                proof {
                    assert(slots_view(envs@)[i as int] == envs@[i as int]@);
                    assert(slots_view(envs@)[j as int] == envs@[j as int]@);
                }
                return false;
            }
            j = j + 1;
        }
        i = i + 1;
    }
    proof {
        assert forall|a: int, b: int| 0 <= a < slots_view(envs@).len() && 0 <= b < slots_view(envs@).len() && a != b
            implies slots_view(envs@)[a].0 != slots_view(envs@)[b].0 by {
            assert(slots_view(envs@)[a] == envs@[a]@);
            assert(slots_view(envs@)[b] == envs@[b]@);
        }
    }
    true
}

/// Whether the project names of a list of projects are distinct.
fn projects_distinct(projects: &Vec<ProjectEnvs>) -> (r: bool)
    ensures
        r == keys_distinct(projects_view(projects@)),
{
    let mut i: usize = 0;
    while i < projects.len()
        invariant
            i <= projects@.len(),
            forall|a: int, b: int| 0 <= a < i && 0 <= b < projects@.len() && a != b ==> projects@[a].name@ != projects@[b].name@,
        decreases projects@.len() - i,
    {
        let mut j: usize = 0;
        while j < projects.len()
            invariant
                i < projects@.len(),
                j <= projects@.len(),
                forall|a: int, b: int| 0 <= a < i && 0 <= b < projects@.len() && a != b ==> projects@[a].name@ != projects@[b].name@,
                forall|b: int| 0 <= b < j && b != i ==> projects@[i as int].name@ != projects@[b].name@,
            decreases projects@.len() - j,
        {
            if j != i && projects[i].name == projects[j].name {
                proof {
                    assert(projects_view(projects@)[i as int] == projects@[i as int]@);
                    assert(projects_view(projects@)[j as int] == projects@[j as int]@);
                }
                return false;
            }
            j = j + 1;
        }
        i = i + 1;
    }
    proof {
        assert forall|a: int, b: int| 0 <= a < projects_view(projects@).len() && 0 <= b < projects_view(projects@).len() && a != b
            implies projects_view(projects@)[a].0 != projects_view(projects@)[b].0 by {
            assert(projects_view(projects@)[a] == projects@[a]@);
            assert(projects_view(projects@)[b] == projects@[b]@);
        }
    }
    true
}

/// The names of a list of slots, in order.
fn slot_names(envs: &Vec<EnvSlot>) -> (r: Vec<String>)
    requires
        keys_distinct(slots_view(envs@)),
    ensures
        lists_each_once(r@, keyed_map(slots_view(envs@)).dom()),
{
    let mut names: Vec<String> = Vec::new();
    let mut i: usize = 0;
    while i < envs.len()
        invariant
            i <= envs@.len(),
            names@.len() == i,
            forall|j: int| 0 <= j < i ==> (#[trigger] names@[j])@ == envs@[j].name@,
        decreases envs@.len() - i,
    {
        names.push(envs[i].name.clone());
        i = i + 1;
    }
    proof {
        let sv = slots_view(envs@);
        assert forall|a: int, b: int| 0 <= a < names@.len() && 0 <= b < names@.len() && a != b implies names@[a]@ != names@[b]@ by {
            assert(sv[a] == envs@[a]@);
            assert(sv[b] == envs@[b]@);
        }
        assert forall|k: Seq<char>| keyed_map(sv).dom().contains(k) <==> exists|i: int| 0 <= i < names@.len() && names@[i]@ == k by {
            if keyed_map(sv).dom().contains(k) {
                let i = choose|i: int| 0 <= i < sv.len() && sv[i].0 == k;
                assert(sv[i] == envs@[i]@);
                assert(names@[i]@ == k);
            }
            if exists|i: int| 0 <= i < names@.len() && names@[i]@ == k {
                let i = choose|i: int| 0 <= i < names@.len() && names@[i]@ == k;
                lemma_slot_at(envs@, i);
            }
        }
    }
    names
}

impl Manifest {
    /// A manifest holding the given projects, provided that project names are
    /// distinct and, within each project, environment names are.
    pub fn from_projects(projects: Vec<ProjectEnvs>) -> (r: Option<Manifest>)
        ensures
            r is Some <==> projects_wf(projects@),
            r matches Some(m) ==> m@ == keyed_map(projects_view(projects@)),
    {
        if !projects_distinct(&projects) {
            return None;
        }
        let mut i: usize = 0;
        while i < projects.len()
            invariant
                i <= projects@.len(),
                forall|j: int| 0 <= j < i ==> keys_distinct(slots_view(#[trigger] projects@[j].envs@)),
            decreases projects@.len() - i,
        {
            if !slots_distinct(&projects[i].envs) {
                return None;
            }
            i = i + 1;
        }
        Some(Manifest { projects })
    }

    /// The projects of the manifest, for saving it.
    pub fn projects(&self) -> (r: &Vec<ProjectEnvs>)
        ensures
            projects_wf(r@),
            keyed_map(projects_view(r@)) == self@,
    {
        proof {
            use_type_invariant(self);
        }
        &self.projects
    }

    /// The names of all projects, each once.
    pub fn project_names(&self) -> (r: Vec<String>)
        ensures
            lists_each_once(r@, self@.dom()),
    {
        proof {
            use_type_invariant(self);
        }
        let mut names: Vec<String> = Vec::new();
        let mut i: usize = 0;
        while i < self.projects.len()
            invariant
                i <= self.projects@.len(),
                names@.len() == i,
                forall|j: int| 0 <= j < i ==> (#[trigger] names@[j])@ == self.projects@[j].name@,
            decreases self.projects@.len() - i,
        {
            names.push(self.projects[i].name.clone());
            i = i + 1;
        }
        proof {
            let pv = projects_view(self.projects@);
            assert forall|a: int, b: int| 0 <= a < names@.len() && 0 <= b < names@.len() && a != b implies names@[a]@ != names@[b]@ by {
                assert(pv[a] == self.projects@[a]@);
                assert(pv[b] == self.projects@[b]@);
            }
            assert forall|k: Seq<char>| self@.dom().contains(k) <==> exists|i: int| 0 <= i < names@.len() && names@[i]@ == k by {
                if self@.dom().contains(k) {
                    let i = choose|i: int| 0 <= i < pv.len() && pv[i].0 == k;
                    assert(pv[i] == self.projects@[i]@);
                    assert(names@[i]@ == k);
                }
                if exists|i: int| 0 <= i < names@.len() && names@[i]@ == k {
                    let i = choose|i: int| 0 <= i < names@.len() && names@[i]@ == k;
                    lemma_project_at(self.projects@, i);
                }
            }
        }
        names
    }

    /// The names of the environments of project `project`, each once; none
    /// when there is no such project.
    pub fn env_names(&self, project: &str) -> (r: Vec<String>)
        ensures
            self@.contains_key(project@) ==> lists_each_once(r@, self@[project@].dom()),
            !self@.contains_key(project@) ==> r@.len() == 0,
    {
        proof {
            use_type_invariant(self);
        }
        let p: String = project.to_owned();
        match find_project(&self.projects, &p) {
            Some(i) => {
                proof {
                    lemma_project_at(self.projects@, i as int);
                }
                slot_names(&self.projects[i].envs)
            },
            None => {
                proof {
                    lemma_keyed_absent(projects_view(self.projects@), p@);
                }
                Vec::new()
            },
        }
    }
}

/// No project of `m` is left without environments.
pub open spec fn no_empty_projects(m: ManifestView) -> bool {
    forall|p: Seq<char>| #[trigger] m.contains_key(p) ==> m[p] != Map::<Seq<char>, EntryView>::empty()
}

/// Reading an environment right after storing it gives what was stored.
pub proof fn law_lookup_after_put(m: ManifestView, project: Seq<char>, env: Seq<char>, entry: EntryView)
    ensures
        lookup(put_spec(m, project, env, entry), project, env) == Some(entry),
{
}

/// Storing an environment leaves every other environment as it was.
pub proof fn law_put_preserves_others(
    m: ManifestView,
    project: Seq<char>,
    env: Seq<char>,
    entry: EntryView,
    other_project: Seq<char>,
    other_env: Seq<char>,
)
    requires
        other_project != project || other_env != env,
    ensures
        lookup(put_spec(m, project, env, entry), other_project, other_env) == lookup(m, other_project, other_env),
{
}

/// After an environment is removed it is no longer found.
pub proof fn law_lookup_after_remove(m: ManifestView, project: Seq<char>, env: Seq<char>)
    ensures
        lookup(remove_spec(m, project, env), project, env) is None,
{
}

/// Removing an environment leaves every other environment as it was.
pub proof fn law_remove_preserves_others(
    m: ManifestView,
    project: Seq<char>,
    env: Seq<char>,
    other_project: Seq<char>,
    other_env: Seq<char>,
)
    requires
        other_project != project || other_env != env,
    ensures
        lookup(remove_spec(m, project, env), other_project, other_env) == lookup(m, other_project, other_env),
{
    if m.contains_key(project) {
        let envs = m[project].remove(env);
        if other_project == project {
            if envs == Map::<Seq<char>, EntryView>::empty() {
                assert(!envs.contains_key(other_env));
            }
        }
    }
}

/// Storing a new environment and then removing it leaves every environment
/// as it was before.
pub proof fn law_remove_undoes_put(
    m: ManifestView,
    project: Seq<char>,
    env: Seq<char>,
    entry: EntryView,
    any_project: Seq<char>,
    any_env: Seq<char>,
)
    requires
        lookup(m, project, env) is None,
    ensures
        lookup(remove_spec(put_spec(m, project, env, entry), project, env), any_project, any_env) == lookup(m, any_project, any_env),
{
    if any_project == project && any_env == env {
        law_lookup_after_remove(put_spec(m, project, env, entry), project, env);
    } else {
        law_remove_preserves_others(put_spec(m, project, env, entry), project, env, any_project, any_env);
        law_put_preserves_others(m, project, env, entry, any_project, any_env);
    }
}

/// Neither storing nor removing an environment leaves a project without environments.
pub proof fn law_no_empty_projects(m: ManifestView, project: Seq<char>, env: Seq<char>, entry: EntryView)
    requires
        no_empty_projects(m),
    ensures
        no_empty_projects(put_spec(m, project, env, entry)),
        no_empty_projects(remove_spec(m, project, env)),
{
    let m1 = put_spec(m, project, env, entry);
    assert forall|p: Seq<char>| #[trigger] m1.contains_key(p) implies m1[p] != Map::<Seq<char>, EntryView>::empty() by {
        if p == project {
            assert(m1[p].contains_key(env));
        }
    }
}

/// A blob is only reported for pruning when it was the blob of the replaced
/// or removed environment and no environment refers to it afterwards; in
/// particular a blob that is still in use is never reported.
pub proof fn law_orphan_is_unreferenced(
    old: ManifestView,
    new: ManifestView,
    project: Seq<char>,
    env: Seq<char>,
    kept: Option<Seq<char>>,
    hash: Seq<char>,
)
    requires
        orphaned_hash(old, new, project, env, kept) == Some(hash),
    ensures
        !hash_in_use(new, hash),
        lookup(old, project, env) matches Some(x) && x.1 == hash,
        kept != Some(hash),
{
}

/// After an environment is stored, its blob is in use.
pub proof fn law_stored_hash_in_use(m: ManifestView, project: Seq<char>, env: Seq<char>, entry: EntryView)
    ensures
        hash_in_use(put_spec(m, project, env, entry), entry.1),
{
    let m1 = put_spec(m, project, env, entry);
    assert(m1.contains_key(project) && m1[project].contains_key(env) && m1[project][env].1 == entry.1);
}

/// A stored environment is listed, under its project.
pub proof fn law_listed_after_put(m: ManifestView, project: Seq<char>, env: Seq<char>, entry: EntryView)
    ensures
        put_spec(m, project, env, entry).dom().contains(project),
        put_spec(m, project, env, entry)[project].dom().contains(env),
{
}

/// Removing the only environment of a project removes the project from the listing.
pub proof fn law_project_gone_after_last_remove(m: ManifestView, project: Seq<char>, env: Seq<char>)
    requires
        m.contains_key(project),
        m[project].dom() == Set::<Seq<char>>::empty().insert(env),
    ensures
        !remove_spec(m, project, env).dom().contains(project),
{
    assert(m[project].remove(env) =~= Map::<Seq<char>, EntryView>::empty());
}

/// Environment `env` of project `project` is stored in `m` under the blob `hash`.
pub open spec fn stored_under(m: ManifestView, project: Seq<char>, env: Seq<char>, hash: Seq<char>) -> bool {
    lookup(m, project, env) matches Some(y) && y.1 == hash
}

/// Some environment other than `(project, env)` is stored under `hash` in `m`.
pub open spec fn used_elsewhere(m: ManifestView, project: Seq<char>, env: Seq<char>, hash: Seq<char>) -> bool {
    exists|p: Seq<char>, e: Seq<char>|
        (p != project || e != env) && #[trigger] stored_under(m, p, e, hash)
}

/// A hash is in use exactly when some stored environment carries it.
proof fn lemma_in_use_iff_lookup(m: ManifestView, hash: Seq<char>)
    ensures
        hash_in_use(m, hash) <==> exists|p: Seq<char>, e: Seq<char>| #[trigger] stored_under(m, p, e, hash),
{
    if hash_in_use(m, hash) {
        let (p, e) = choose|p: Seq<char>, e: Seq<char>|
            #![trigger m[p][e]]
            m.contains_key(p) && m[p].contains_key(e) && m[p][e].1 == hash;
        assert(stored_under(m, p, e, hash));
    }
    if exists|p: Seq<char>, e: Seq<char>| #[trigger] stored_under(m, p, e, hash) {
        let (p, e) = choose|p: Seq<char>, e: Seq<char>| #[trigger] stored_under(m, p, e, hash);
        assert(m.contains_key(p) && m[p].contains_key(e) && m[p][e].1 == hash);
        assert(hash_in_use(m, hash));
    }
}

/// After storing `entry` at `(project, env)`, a blob is in use exactly when it
/// is the new entry's blob or another environment was already stored under it.
pub proof fn law_in_use_after_put(m: ManifestView, project: Seq<char>, env: Seq<char>, entry: EntryView, hash: Seq<char>)
    ensures
        hash_in_use(put_spec(m, project, env, entry), hash) <==> (hash == entry.1 || used_elsewhere(m, project, env, hash)),
{
    let n = put_spec(m, project, env, entry);
    lemma_in_use_iff_lookup(n, hash);
    if hash_in_use(n, hash) && hash != entry.1 {
        let (p, e) = choose|p: Seq<char>, e: Seq<char>| #[trigger] stored_under(n, p, e, hash);
        if p == project && e == env {
            law_lookup_after_put(m, project, env, entry);
        } else {
            law_put_preserves_others(m, project, env, entry, p, e);
            assert(stored_under(m, p, e, hash));
        }
    }
    if hash == entry.1 {
        law_lookup_after_put(m, project, env, entry);
        assert(stored_under(n, project, env, hash));
    }
    if used_elsewhere(m, project, env, hash) {
        let (p, e) = choose|p: Seq<char>, e: Seq<char>|
            (p != project || e != env) && #[trigger] stored_under(m, p, e, hash);
        law_put_preserves_others(m, project, env, entry, p, e);
        assert(stored_under(n, p, e, hash));
    }
}

/// After removing `(project, env)`, a blob is in use exactly when another
/// environment is stored under it.
pub proof fn law_in_use_after_remove(m: ManifestView, project: Seq<char>, env: Seq<char>, hash: Seq<char>)
    ensures
        hash_in_use(remove_spec(m, project, env), hash) <==> used_elsewhere(m, project, env, hash),
{
    let n = remove_spec(m, project, env);
    lemma_in_use_iff_lookup(n, hash);
    if hash_in_use(n, hash) {
        let (p, e) = choose|p: Seq<char>, e: Seq<char>| #[trigger] stored_under(n, p, e, hash);
        law_lookup_after_remove(m, project, env);
        if p != project || e != env {
            law_remove_preserves_others(m, project, env, p, e);
            assert(stored_under(m, p, e, hash));
        }
    }
    if used_elsewhere(m, project, env, hash) {
        let (p, e) = choose|p: Seq<char>, e: Seq<char>|
            (p != project || e != env) && #[trigger] stored_under(m, p, e, hash);
        law_remove_preserves_others(m, project, env, p, e);
        assert(stored_under(n, p, e, hash));
    }
}

/// Storing an environment reports its former blob for pruning exactly when
/// there was a former entry, its blob differs from the new one, and no other
/// environment is stored under it; whatever the file names are.
pub proof fn law_put_reports_exactly_orphans(
    m: ManifestView,
    project: Seq<char>,
    env: Seq<char>,
    filename: Seq<char>,
    hash: Seq<char>,
)
    ensures
        lookup(m, project, env) is None ==> orphaned_hash(m, put_spec(m, project, env, (filename, hash)), project, env, Some(hash)) is None,
        lookup(m, project, env) matches Some(old) ==> orphaned_hash(m, put_spec(m, project, env, (filename, hash)), project, env, Some(hash))
            == (if old.1 != hash && !used_elsewhere(m, project, env, old.1) { Some(old.1) } else { None }),
{
    if let Some(old) = lookup(m, project, env) {
        law_in_use_after_put(m, project, env, (filename, hash), old.1);
    }
}

/// Deleting an environment reports its blob for deletion exactly when the
/// environment existed and no other environment is stored under that blob;
/// deleting a missing environment reports nothing.
pub proof fn law_delete_reports_exactly_orphans(m: ManifestView, project: Seq<char>, env: Seq<char>)
    ensures
        lookup(m, project, env) is None ==> orphaned_hash(m, m, project, env, None) is None,
        lookup(m, project, env) matches Some(old) ==> orphaned_hash(m, remove_spec(m, project, env), project, env, None)
            == (if !used_elsewhere(m, project, env, old.1) { Some(old.1) } else { None }),
{
    if let Some(old) = lookup(m, project, env) {
        law_in_use_after_remove(m, project, env, old.1);
    }
}

} // verus!
