//! Profiles: bucket settings by profile name, and which profile is current.

use crate::config::{clone_opt_string, opt_text, Bucket};
use crate::text::same_text;
use vstd::prelude::*;

verus! {

/// One named profile.
#[derive(Clone)]
pub struct Profile {
    pub name: String,
    pub bucket: Bucket,
}

/// The profile configuration document: bucket settings by profile name, names unique.
#[derive(Clone)]
pub struct Configuration {
    schema: Option<String>,
    profiles: Vec<Profile>,
}

/// Whether profile `i` of `ps` is named `k`.
pub open spec fn named(ps: Seq<Profile>, i: int, k: Seq<char>) -> bool {
    0 <= i < ps.len() && ps[i].name@ == k
}

impl View for Configuration {
    type V = Map<Seq<char>, Bucket>;

    closed spec fn view(&self) -> Map<Seq<char>, Bucket> {
        Map::new(
            |k: Seq<char>| exists|i: int| named(self.profiles@, i, k),
            |k: Seq<char>| self.profiles@[choose|i: int| named(self.profiles@, i, k)].bucket,
        )
    }
}

impl Configuration {
    /// The schema tag of the document; carried along, never read.
    pub closed spec fn schema_text(&self) -> Option<Seq<char>> {
        opt_text(self.schema)
    }

    /// The schema tag of the document.
    pub fn schema(&self) -> (r: Option<String>)
        ensures
            opt_text(r) == self.schema_text(),
    {
        clone_opt_string(&self.schema)
    }

    /// Replaces the schema tag of the document.
    pub fn set_schema(&mut self, schema: Option<String>)
        requires
            old(self).wf(),
        ensures
            final(self).wf(),
            final(self)@ == old(self)@,
            final(self).schema_text() == opt_text(schema),
    {
        self.schema = schema;
    }

    /// No two profiles share a name.
    pub closed spec fn wf(&self) -> bool {
        forall|i: int, j: int|
            0 <= i < self.profiles@.len() && 0 <= j < self.profiles@.len() && i != j
                ==> self.profiles@[i].name@ != self.profiles@[j].name@
    }

    proof fn lemma_lookup(&self, i: int)
        requires
            self.wf(),
            0 <= i < self.profiles@.len(),
        ensures
            self@.contains_key(self.profiles@[i].name@),
            self@[self.profiles@[i].name@] == self.profiles@[i].bucket,
    {
        let k = self.profiles@[i].name@;
        assert(named(self.profiles@, i, k));
        let j = choose|j: int| named(self.profiles@, j, k);
        assert(j == i);
    }

    /// Position of the profile named `name`.
    fn position(&self, name: &str) -> (r: Option<usize>)
        requires
            self.wf(),
        ensures
            r matches Some(i) ==> i < self.profiles@.len() && self.profiles@[i as int].name@
                == name@,
            r is None <==> !self@.contains_key(name@),
    {
        let mut i: usize = 0;
        while i < self.profiles.len()
            invariant
                i <= self.profiles@.len(),
                forall|k: int| 0 <= k < i ==> self.profiles@[k].name@ != name@,
            decreases self.profiles@.len() - i,
        {
            if same_text(self.profiles[i].name.as_str(), name) {
                assert(named(self.profiles@, i as int, name@));
                return Some(i);
            }
            i = i + 1;
        }
        None
    }

    /// An empty configuration.
    pub fn new() -> (r: Configuration)
        ensures
            r.wf(),
            r@ == Map::<Seq<char>, Bucket>::empty(),
            r.schema_text() is None,
    {
        let r = Configuration { schema: None, profiles: Vec::new() };
        assert(r@ =~= Map::<Seq<char>, Bucket>::empty());
        r
    }

    /// Whether a profile has this name.
    pub fn contains_key(&self, name: &str) -> (r: bool)
        requires
            self.wf(),
        ensures
            r == self@.contains_key(name@),
    {
        self.position(name).is_some()
    }

    /// The bucket of the profile with this name.
    pub fn get(&self, name: &str) -> (r: Option<&Bucket>)
        requires
            self.wf(),
        ensures
            r is None <==> !self@.contains_key(name@),
            r matches Some(b) ==> self@[name@] == *b,
    {
        match self.position(name) {
            Some(i) => {
                proof {
                    self.lemma_lookup(i as int);
                }
                Some(&self.profiles[i].bucket)
            },
            None => None,
        }
    }

    /// The profile names.
    pub fn names(&self) -> (r: Vec<String>)
        requires
            self.wf(),
        ensures
            forall|k: Seq<char>| self@.contains_key(k) <==> exists|i: int| 0 <= i < r@.len() && r@[i]@ == k,
            r@.len() == self@.len(),
    {
        let mut r: Vec<String> = Vec::new();
        let mut i: usize = 0;
        while i < self.profiles.len()
            invariant
                i <= self.profiles@.len(),
                r@.len() == i,
                forall|j: int| 0 <= j < i ==> r@[j]@ == self.profiles@[j].name@,
            decreases self.profiles@.len() - i,
        {
            r.push(self.profiles[i].name.clone());
            i = i + 1;
        }
        proof {
            assert forall|k: Seq<char>| self@.contains_key(k) <==> exists|i: int| 0 <= i < r@.len() && r@[i]@ == k by {
                if self@.contains_key(k) {
                    let i = choose|i: int| named(self.profiles@, i, k);
                    assert(r@[i]@ == k);
                }
                if exists|i: int| 0 <= i < r@.len() && r@[i]@ == k {
                    let i = choose|i: int| 0 <= i < r@.len() && r@[i]@ == k;
                    assert(named(self.profiles@, i, k));
                }
            }
            self.lemma_len();
        }
        r
    }

    proof fn lemma_len(&self)
        requires
            self.wf(),
        ensures
            self@.len() == self.profiles@.len(),
            self@.dom() == self.profiles@.map_values(|p: Profile| p.name@).to_set(),
    {
        let ns = self.profiles@.map_values(|p: Profile| p.name@);
        assert(self@.dom() =~= ns.to_set()) by {
            assert forall|k: Seq<char>| self@.dom().contains(k) <==> ns.to_set().contains(k) by {
                if ns.to_set().contains(k) {
                    let i = choose|i: int| 0 <= i < ns.len() && ns[i] == k;
                    assert(named(self.profiles@, i, k));
                }
                if self@.dom().contains(k) {
                    let i = choose|i: int| named(self.profiles@, i, k);
                    assert(ns[i] == k);
                }
            }
        }
        assert(ns.no_duplicates()) by {
            assert forall|i: int, j: int| 0 <= i < ns.len() && 0 <= j < ns.len() && i != j implies ns[i] != ns[j] by {
                assert(ns[i] == self.profiles@[i].name@);
                assert(ns[j] == self.profiles@[j].name@);
            }
        }
        ns.unique_seq_to_set();
    }

    /// Whether there is no profile.
    pub fn is_empty(&self) -> (r: bool)
        requires
            self.wf(),
        ensures
            r == (self@.len() == 0),
    {
        proof {
            self.lemma_len();
        }
        self.profiles.len() == 0
    }

    /// Sets the bucket of a profile, adding the profile when the name is new;
    /// returns the bucket it replaced.
    pub fn insert(&mut self, name: String, bucket: Bucket) -> (r: Option<Bucket>)
        requires
            old(self).wf(),
        ensures
            final(self).wf(),
            final(self)@ == old(self)@.insert(name@, bucket),
            final(self).schema_text() == old(self).schema_text(),
            r is None <==> !old(self)@.contains_key(name@),
            r matches Some(b) ==> old(self)@[name@] == b,
    {
        match self.position(name.as_str()) {
            Some(i) => {
                proof {
                    self.lemma_lookup(i as int);
                }
                let ghost before = *self;
                let p = Profile { name, bucket };
                let old_profile = self.profiles.remove(i);
                self.profiles.insert(i, p);
                proof {
                    assert(self.profiles@ =~= before.profiles@.update(i as int, self.profiles@[i as int]));
                    assert forall|j: int| 0 <= j < self.profiles@.len() && j != i implies self.profiles@[j] == before.profiles@[j] by {}
                    assert(self.wf());
                    assert(self@ =~= before@.insert(self.profiles@[i as int].name@, self.profiles@[i as int].bucket)) by {
                        assert forall|k: Seq<char>| #[trigger] self@.contains_key(k) <==> before@.insert(self.profiles@[i as int].name@, self.profiles@[i as int].bucket).contains_key(k) by {
                            if self@.contains_key(k) {
                                let j = choose|j: int| named(self.profiles@, j, k);
                                if j != i {
                                    assert(named(before.profiles@, j, k));
                                }
                            }
                            if before@.contains_key(k) {
                                let j = choose|j: int| named(before.profiles@, j, k);
                                if j != i {
                                    assert(named(self.profiles@, j, k));
                                } else {
                                    assert(named(self.profiles@, i as int, k));
                                }
                            }
                        }
                        assert forall|k: Seq<char>| #[trigger] self@.contains_key(k) implies self@[k] == before@.insert(self.profiles@[i as int].name@, self.profiles@[i as int].bucket)[k] by {
                            let j = choose|j: int| named(self.profiles@, j, k);
                            self.lemma_lookup(j);
                            if j != i {
                                before.lemma_lookup(j);
                            }
                        }
                    }
                }
                Some(old_profile.bucket)
            },
            None => {
                let ghost before = *self;
                self.profiles.push(Profile { name, bucket });
                proof {
                    let n = before.profiles@.len() as int;
                    assert forall|j: int| 0 <= j < n implies self.profiles@[j] == before.profiles@[j] by {}
                    assert forall|j: int| 0 <= j < n implies before.profiles@[j].name@ != self.profiles@[n].name@ by {
                        if before.profiles@[j].name@ == self.profiles@[n].name@ {
                            assert(named(before.profiles@, j, name@));
                        }
                    }
                    assert(self.wf());
                    assert(self@ =~= before@.insert(self.profiles@[n].name@, self.profiles@[n].bucket)) by {
                        assert forall|k: Seq<char>| #[trigger] self@.contains_key(k) <==> before@.insert(self.profiles@[n].name@, self.profiles@[n].bucket).contains_key(k) by {
                            if self@.contains_key(k) {
                                let j = choose|j: int| named(self.profiles@, j, k);
                                if j != n {
                                    assert(named(before.profiles@, j, k));
                                }
                            }
                            if before@.contains_key(k) {
                                let j = choose|j: int| named(before.profiles@, j, k);
                                assert(named(self.profiles@, j, k));
                            }
                            if k == self.profiles@[n].name@ {
                                assert(named(self.profiles@, n, k));
                            }
                        }
                        assert forall|k: Seq<char>| #[trigger] self@.contains_key(k) implies self@[k] == before@.insert(self.profiles@[n].name@, self.profiles@[n].bucket)[k] by {
                            let j = choose|j: int| named(self.profiles@, j, k);
                            self.lemma_lookup(j);
                            if j != n {
                                before.lemma_lookup(j);
                            }
                        }
                    }
                }
                None
            },
        }
    }

    /// Removes a profile; returns its bucket, or `None` when no profile has that name.
    pub fn remove(&mut self, name: &str) -> (r: Option<Bucket>)
        requires
            old(self).wf(),
        ensures
            final(self).wf(),
            final(self)@ == old(self)@.remove(name@),
            final(self).schema_text() == old(self).schema_text(),
            r is None <==> !old(self)@.contains_key(name@),
            r matches Some(b) ==> old(self)@[name@] == b,
    {
        match self.position(name) {
            Some(i) => {
                proof {
                    self.lemma_lookup(i as int);
                }
                let ghost before = *self;
                let removed = self.profiles.remove(i);
                proof {
                    let n = before.profiles@.len() as int;
                    assert(forall|j: int| 0 <= j < i ==> self.profiles@[j] == before.profiles@[j]);
                    assert(forall|j: int| i <= j < n - 1 ==> self.profiles@[j] == before.profiles@[j + 1]);
                    assert(self.wf()) by {
                        assert forall|a: int, b: int|
                            0 <= a < self.profiles@.len() && 0 <= b < self.profiles@.len() && a != b
                            implies self.profiles@[a].name@ != self.profiles@[b].name@ by {
                            let a2 = if a < i { a } else { a + 1 };
                            let b2 = if b < i { b } else { b + 1 };
                            assert(self.profiles@[a] == before.profiles@[a2]);
                            assert(self.profiles@[b] == before.profiles@[b2]);
                        }
                    }
                    assert(self@ =~= before@.remove(name@)) by {
                        assert forall|k: Seq<char>| #[trigger] self@.contains_key(k) <==> before@.remove(name@).contains_key(k) by {
                            if self@.contains_key(k) {
                                let j = choose|j: int| named(self.profiles@, j, k);
                                let j2 = if j < i { j } else { j + 1 };
                                assert(named(before.profiles@, j2, k));
                                assert(j2 != i);
                            }
                            if before@.remove(name@).contains_key(k) {
                                let j = choose|j: int| named(before.profiles@, j, k);
                                assert(j != i);
                                let j2 = if j < i { j } else { j - 1 };
                                assert(named(self.profiles@, j2, k));
                            }
                        }
                        assert forall|k: Seq<char>| #[trigger] self@.contains_key(k) implies self@[k] == before@.remove(name@)[k] by {
                            let j = choose|j: int| named(self.profiles@, j, k);
                            self.lemma_lookup(j);
                            let j2 = if j < i { j } else { j + 1 };
                            before.lemma_lookup(j2);
                        }
                    }
                }
                Some(removed.bucket)
            },
            None => {
                assert(self@.remove(name@) =~= self@);
                None
            },
        }
    }
}

/// The current-profile state document.
#[derive(Clone, Debug, Default)]
pub struct CliState {
    pub current: Option<String>,
}

/// Why a profile operation was refused.
#[derive(Debug, Clone, PartialEq, Eq)]
pub enum ProfileError {
    /// Neither an explicit profile nor a current one was given.
    NoProfileSelected,
    /// No profile has this name.
    NotFound(String),
    /// A profile with this name exists already.
    AlreadySet(String),
}

/// The profile to act on: the explicit one, else the current one; it must exist.
pub fn get_profile(args_profile: Option<&str>, current: Option<&str>, cfg: &Configuration) -> (r:
    Result<String, ProfileError>)
    requires
        cfg.wf(),
    ensures
        args_profile is None && current is None ==> r == Err::<String, ProfileError>(
            ProfileError::NoProfileSelected,
        ),
        ({
            let chosen = if args_profile is Some {
                args_profile
            } else {
                current
            };
            chosen matches Some(p) ==> {
                &&& cfg@.contains_key(p@) ==> (r matches Ok(s) && s@ == p@)
                &&& !cfg@.contains_key(p@) ==> (r matches Err(ProfileError::NotFound(s)) && s@
                    == p@)
            }
        }),
{
    let profile = match args_profile {
        Some(p) => p,
        None => match current {
            Some(p) => p,
            None => {
                return Err(ProfileError::NoProfileSelected);
            },
        },
    };
    if cfg.contains_key(profile) {
        Ok(profile.to_owned())
    } else {
        Err(ProfileError::NotFound(profile.to_owned()))
    }
}

/// Adds a new profile, and makes it the current one when asked; a name in use is refused
/// and nothing changes.
pub fn add_profile(
    cfg: &mut Configuration,
    state: &mut CliState,
    name: String,
    bucket: Bucket,
    make_current: bool,
) -> (r: Result<(), ProfileError>)
    requires
        old(cfg).wf(),
    ensures
        final(cfg).wf(),
        old(cfg)@.contains_key(name@) ==> (r matches Err(ProfileError::AlreadySet(n)) && n@
            == name@ && final(cfg)@ == old(cfg)@ && *final(state) == *old(state)),
        !old(cfg)@.contains_key(name@) ==> r is Ok && final(cfg)@ == old(cfg)@.insert(
            name@,
            bucket,
        ) && (if make_current {
            final(state).current matches Some(c) && c@ == name@
        } else {
            *final(state) == *old(state)
        }),
{
    if cfg.contains_key(name.as_str()) {
        return Err(ProfileError::AlreadySet(name));
    }
    if make_current {
        state.current = Some(name.clone());
    }
    cfg.insert(name, bucket);
    Ok(())
}

/// Makes an existing profile the current one.
pub fn set_current_profile(cfg: &Configuration, state: &mut CliState, name: String) -> (r: Result<
    (),
    ProfileError,
>)
    requires
        cfg.wf(),
    ensures
        cfg@.contains_key(name@) ==> r is Ok && final(state).current == Some(name),
        !cfg@.contains_key(name@) ==> r == Err::<(), ProfileError>(ProfileError::NotFound(name))
            && *final(state) == *old(state),
{
    if cfg.contains_key(name.as_str()) {
        state.current = Some(name);
        Ok(())
    } else {
        Err(ProfileError::NotFound(name))
    }
}

/// Removes an existing profile. The current-profile state is left as it is.
pub fn remove_profile(cfg: &mut Configuration, name: &str) -> (r: Result<Bucket, ProfileError>)
    requires
        old(cfg).wf(),
    ensures
        final(cfg).wf(),
        final(cfg)@ == old(cfg)@.remove(name@),
        old(cfg)@.contains_key(name@) ==> (r matches Ok(b) && b == old(cfg)@[name@]),
        !old(cfg)@.contains_key(name@) ==> (r matches Err(ProfileError::NotFound(n)) && n@
            == name@),
{
    match cfg.remove(name) {
        Some(b) => Ok(b),
        None => Err(ProfileError::NotFound(name.to_owned())),
    }
}

/// A profile name with whether it is the current one.
#[derive(Debug, Clone)]
pub struct ProfileInfo {
    pub name: String,
    pub current: bool,
}

/// One line per profile, marking the current one.
pub fn profile_infos(cfg: &Configuration, state: &CliState) -> (r: Vec<ProfileInfo>)
    requires
        cfg.wf(),
    ensures
        r@.len() == cfg@.len(),
        forall|k: Seq<char>| cfg@.contains_key(k) <==> exists|i: int| 0 <= i < r@.len() && r@[i].name@ == k,
        forall|i: int| 0 <= i < r@.len() ==> (#[trigger] r@[i]).current == (state.current matches Some(c) && c@ == r@[i].name@),
{
    let names = cfg.names();
    let mut r: Vec<ProfileInfo> = Vec::new();
    let mut i: usize = 0;
    while i < names.len()
        invariant
            i <= names@.len(),
            r@.len() == i,
            forall|j: int| 0 <= j < i ==> (#[trigger] r@[j]).name@ == names@[j]@ && r@[j].current == (state.current matches Some(c) && c@ == names@[j]@),
        decreases names@.len() - i,
    {
        let name = names[i].clone();
        let current = match &state.current {
            Some(c) => same_text(c.as_str(), name.as_str()),
            None => false,
        };
        r.push(ProfileInfo { name, current });
        i = i + 1;
    }
    proof {
        assert forall|k: Seq<char>| cfg@.contains_key(k) <==> exists|i: int| 0 <= i < r@.len() && r@[i].name@ == k by {
            if cfg@.contains_key(k) {
                let i = choose|i: int| 0 <= i < names@.len() && names@[i]@ == k;
                assert(r@[i].name@ == k);
            }
            if exists|i: int| 0 <= i < r@.len() && r@[i].name@ == k {
                let i = choose|i: int| 0 <= i < r@.len() && r@[i].name@ == k;
                assert(names@[i]@ == k);
            }
        }
    }
    r
}

} // verus!
