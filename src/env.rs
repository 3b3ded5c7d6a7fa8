//! The environment handed to a provider process: the host variables of a
//! fixed allow-list, overlaid by the caller's own variables.
use vstd::prelude::*;

verus! {

/// The names of a list of names, as text.
pub open spec fn names_of(names: Seq<String>) -> Seq<Seq<char>> {
    names.map_values(|s: String| s@)
}

/// The host variables that a provider inherits on POSIX-like hosts.
pub open spec fn unix_allow_list() -> Seq<Seq<char>> {
    seq![
        "HOME"@,
        "LOGNAME"@,
        "PATH"@,
        "SHELL"@,
        "USER"@,
        "__CF_USER_TEXT_ENCODING"@,
        "LANG"@,
        "LC_ALL"@,
        "TERM"@,
        "TMPDIR"@,
        "TZ"@,
    ]
}

/// The host variables that a provider inherits on Windows hosts.
pub open spec fn windows_allow_list() -> Seq<Seq<char>> {
    seq!["PATH"@, "PATHEXT"@, "USERNAME"@, "USERDOMAIN"@, "USERPROFILE"@, "TEMP"@, "TMP"@]
}

/// Names of the host variables that a provider inherits on POSIX-like hosts.
pub fn unix_default_env_vars() -> (r: Vec<String>)
    ensures
        names_of(r@) == unix_allow_list(),
{
    let r = 
    vec![
        "HOME".to_owned(),
        "LOGNAME".to_owned(),
        "PATH".to_owned(),
        "SHELL".to_owned(),
        "USER".to_owned(),
        "__CF_USER_TEXT_ENCODING".to_owned(),
        "LANG".to_owned(),
        "LC_ALL".to_owned(),
        "TERM".to_owned(),
        "TMPDIR".to_owned(),
        "TZ".to_owned(),
    ];
    assert(names_of(r@) =~= unix_allow_list());
    r
}

/// Names of the host variables that a provider inherits on Windows hosts.
pub fn windows_default_env_vars() -> (r: Vec<String>)
    ensures
        names_of(r@) == windows_allow_list(),
{
    let r = vec![
        "PATH".to_owned(),
        "PATHEXT".to_owned(),
        "USERNAME".to_owned(),
        "USERDOMAIN".to_owned(),
        "USERPROFILE".to_owned(),
        "TEMP".to_owned(),
        "TMP".to_owned(),
    ];
    assert(names_of(r@) =~= windows_allow_list());
    r
}

/// The names in a list of names.
pub open spec fn name_set(names: Seq<String>) -> Set<Seq<char>> {
    Set::new(|k: Seq<char>| exists|i: int| 0 <= i < names.len() && names[i]@ == k)
}

/// The map that a list of `(name, value)` pairs denotes, a later pair
/// overriding an earlier one with the same name.
pub open spec fn pairs_map(pairs: Seq<(String, String)>) -> Map<Seq<char>, Seq<char>>
    decreases pairs.len(),
{
    if pairs.len() == 0 {
        Map::empty()
    } else {
        pairs_map(pairs.drop_last()).insert(pairs.last().0@, pairs.last().1@)
    }
}

/// A set of environment variables, each name at most once.
pub struct EnvVars {
    vars: Vec<(String, String)>,
}

impl EnvVars {
    /// Names are unique.
    pub closed spec fn wf(&self) -> bool {
        forall|i: int, j: int|
            0 <= i < j < self.vars@.len() ==> self.vars@[i].0@ != self.vars@[j].0@
    }

    /// The variables as a map from name to value.
    pub closed spec fn view(&self) -> Map<Seq<char>, Seq<char>> {
        Map::new(
            |k: Seq<char>| exists|i: int| 0 <= i < self.vars@.len() && self.vars@[i].0@ == k,
            |k: Seq<char>|
                self.vars@[choose|i: int| 0 <= i < self.vars@.len() && self.vars@[i].0@ == k].1@,
        )
    }

    proof fn lemma_entry(&self, i: int)
        requires
            self.wf(),
            0 <= i < self.vars@.len(),
        ensures
            self.view().contains_key(self.vars@[i].0@),
            self.view()[self.vars@[i].0@] == self.vars@[i].1@,
    {
        let k = self.vars@[i].0@;
        assert(exists|j: int| 0 <= j < self.vars@.len() && self.vars@[j].0@ == k);
        let j = choose|j: int| 0 <= j < self.vars@.len() && self.vars@[j].0@ == k;
        assert(i == j);
    }

    /// No variables.
    pub fn new() -> (r: Self)
        ensures
            r.wf(),
            r.view() == Map::<Seq<char>, Seq<char>>::empty(),
    {
        let r = EnvVars { vars: Vec::new() };
        assert(r.view() =~= Map::<Seq<char>, Seq<char>>::empty());
        r
    }

    /// The position of `name`, if it is set.
    fn position(&self, name: &String) -> (r: Option<usize>)
        requires
            self.wf(),
        ensures
            r matches Some(i) ==> i < self.vars@.len() && self.vars@[i as int].0@ == name@,
            r is None ==> !self.view().contains_key(name@),
    {
        let mut i: usize = 0;
        while i < self.vars.len()
            invariant
                i <= self.vars@.len(),
                forall|j: int| 0 <= j < i ==> self.vars@[j].0@ != name@,
            decreases self.vars@.len() - i,
        {
            if self.vars[i].0 == *name {
                return Some(i);
            }
            i = i + 1;
        }
        None
    }

    /// Sets `name` to `value`, replacing any earlier value.
    pub fn set(&mut self, name: String, value: String)
        requires
            old(self).wf(),
        ensures
            final(self).wf(),
            final(self).view() == old(self).view().insert(name@, value@),
    {
        let ghost before = self.vars@;
        let ghost pre = *self;
        match self.position(&name) {
            Some(i) => {
                self.vars.set(i, (name, value));
                assert forall|k: Seq<char>| #[trigger] self.view().contains_key(k) == pre.view().insert(
                    name@,
                    value@,
                ).contains_key(k) by {
                    if exists|j: int| 0 <= j < before.len() && before[j].0@ == k {
                        let j = choose|j: int| 0 <= j < before.len() && before[j].0@ == k;
                        assert(self.vars@[j].0@ == k);
                    }
                    if exists|j: int| 0 <= j < self.vars@.len() && self.vars@[j].0@ == k {
                        let j = choose|j: int| 0 <= j < self.vars@.len() && self.vars@[j].0@ == k;
                        if j != i {
                            assert(before[j].0@ == k);
                        }
                    }
                }
                assert forall|k: Seq<char>| #[trigger] self.view().contains_key(k) implies self.view()[k]
                    == pre.view().insert(name@, value@)[k] by {
                    let j = choose|j: int| 0 <= j < self.vars@.len() && self.vars@[j].0@ == k;
                    self.lemma_entry(j);
                    if j != i {
                        assert(before[j] == self.vars@[j]);
                        pre.lemma_entry(j);
                    }
                }
                assert(self.view() =~= pre.view().insert(name@, value@));
            },
            None => {
                self.vars.push((name, value));
                let ghost n = before.len() as int;
                assert forall|k: Seq<char>| #[trigger] self.view().contains_key(k) == pre.view().insert(
                    name@,
                    value@,
                ).contains_key(k) by {
                    if exists|j: int| 0 <= j < before.len() && before[j].0@ == k {
                        let j = choose|j: int| 0 <= j < before.len() && before[j].0@ == k;
                        assert(self.vars@[j].0@ == k);
                    }
                    if k == name@ {
                        assert(self.vars@[n].0@ == k);
                    }
                    if exists|j: int| 0 <= j < self.vars@.len() && self.vars@[j].0@ == k {
                        let j = choose|j: int| 0 <= j < self.vars@.len() && self.vars@[j].0@ == k;
                        if j != n {
                            assert(before[j].0@ == k);
                        }
                    }
                }
                assert forall|k: Seq<char>| #[trigger] self.view().contains_key(k) implies self.view()[k]
                    == pre.view().insert(name@, value@)[k] by {
                    let j = choose|j: int| 0 <= j < self.vars@.len() && self.vars@[j].0@ == k;
                    self.lemma_entry(j);
                    if j != n {
                        assert(before[j] == self.vars@[j]);
                        pre.lemma_entry(j);
                    }
                }
                assert(self.view() =~= pre.view().insert(name@, value@));
            },
        }
    }

    /// The value of `name`, if it is set.
    pub fn get(&self, name: &String) -> (r: Option<String>)
        requires
            self.wf(),
        ensures
            self.view().contains_key(name@) ==> (r matches Some(v) && v@ == self.view()[name@]),
            !self.view().contains_key(name@) ==> r is None,
    {
        match self.position(name) {
            Some(i) => {
                proof {
                    self.lemma_entry(i as int);
                }
                Some(self.vars[i].1.clone())
            },
            None => None,
        }
    }

    /// Whether `name` is set.
    pub fn contains_key(&self, name: &String) -> (r: bool)
        requires
            self.wf(),
        ensures
            r == self.view().contains_key(name@),
    {
        match self.position(name) {
            Some(i) => {
                proof {
                    self.lemma_entry(i as int);
                }
                true
            },
            None => false,
        }
    }

    /// The number of variables.
    pub fn len(&self) -> (r: usize)
        requires
            self.wf(),
        ensures
            r == self.view().len(),
    {
        proof {
            self.lemma_len();
        }
        self.vars.len()
    }

    proof fn lemma_len(&self)
        requires
            self.wf(),
        ensures
            self.view().dom().finite(),
            self.view().len() == self.vars@.len(),
    {
        let keys = self.vars@.map_values(|p: (String, String)| p.0@);
        assert(self.view().dom() =~= keys.to_set()) by {
            assert forall|k: Seq<char>| #[trigger] keys.to_set().contains(k) implies self.view().dom().contains(k) by {
                let i = choose|i: int| 0 <= i < keys.len() && keys[i] == k;
                self.lemma_entry(i);
            }
            assert forall|k: Seq<char>| #[trigger] self.view().dom().contains(k) implies keys.to_set().contains(k) by {
                let i = choose|i: int| 0 <= i < self.vars@.len() && self.vars@[i].0@ == k;
                assert(keys[i] == k);
            }
        }
        assert(keys.no_duplicates());
        keys.unique_seq_to_set();
    }

    /// The variables as `(name, value)` pairs, each name once.
    pub fn to_pairs(&self) -> (r: Vec<(String, String)>)
        requires
            self.wf(),
        ensures
            pairs_map(r@) == self.view(),
    {
        let mut out: Vec<(String, String)> = Vec::new();
        let mut i: usize = 0;
        while i < self.vars.len()
            invariant
                self.wf(),
                i <= self.vars@.len(),
                out@.len() == i,
                forall|j: int| 0 <= j < i ==> #[trigger] out@[j] == self.vars@[j],
            decreases self.vars@.len() - i,
        {
            let (k, v) = (self.vars[i].0.clone(), self.vars[i].1.clone());
            out.push((k, v));
            i = i + 1;
        }
        proof {
            assert(out@ =~= self.vars@);
            assert(self.vars@.subrange(0, self.vars@.len() as int) =~= self.vars@);
            self.lemma_pairs_map(self.vars@.len() as int);
            let keys = self.vars@.map_values(|p: (String, String)| p.0@);
            assert forall|k: Seq<char>| #[trigger] self.view().dom().contains(k) implies keys.to_set().contains(k) by {
                let i = choose|i: int| 0 <= i < self.vars@.len() && self.vars@[i].0@ == k;
                assert(keys[i] == k);
            }
            assert(self.view().restrict(keys.to_set()) =~= self.view());
        }
        out
    }

    proof fn lemma_pairs_map(&self, n: int)
        requires
            self.wf(),
            0 <= n <= self.vars@.len(),
        ensures
            pairs_map(self.vars@.subrange(0, n)) == self.view().restrict(
                self.vars@.subrange(0, n).map_values(|p: (String, String)| p.0@).to_set(),
            ),
        decreases n,
    {
        let s = self.vars@.subrange(0, n);
        let keys = s.map_values(|p: (String, String)| p.0@);
        if n == 0 {
            assert(pairs_map(s) =~= self.view().restrict(keys.to_set()));
        } else {
            self.lemma_pairs_map(n - 1);
            let s0 = self.vars@.subrange(0, n - 1);
            let keys0 = s0.map_values(|p: (String, String)| p.0@);
            assert(s.drop_last() =~= s0);
            self.lemma_entry(n - 1);
            assert forall|k: Seq<char>| #[trigger] keys.to_set().contains(k) == (keys0.to_set().contains(k) || k == self.vars@[n - 1].0@) by {
                if keys0.to_set().contains(k) {
                    let i = choose|i: int| 0 <= i < keys0.len() && keys0[i] == k;
                    assert(keys[i] == k);
                }
                if k == self.vars@[n - 1].0@ {
                    assert(keys[n - 1] == k);
                }
                if keys.to_set().contains(k) {
                    let i = choose|i: int| 0 <= i < keys.len() && keys[i] == k;
                    if i < n - 1 {
                        assert(keys0[i] == k);
                    }
                }
            }
            assert(pairs_map(s) =~= self.view().restrict(keys.to_set()));
        }
    }
}

/// The environment a provider gets: each variable of `host` whose name is on
/// `allow_list`, then each of `extra`, which wins where names collide.
pub open spec fn sanitized_env(
    allow_list: Seq<String>,
    host: Seq<(String, String)>,
    extra: Seq<(String, String)>,
) -> Map<Seq<char>, Seq<char>> {
    pairs_map(host).restrict(name_set(allow_list)).union_prefer_right(pairs_map(extra))
}

/// Whether `name` is on `names`.
pub fn is_listed(names: &Vec<String>, name: &String) -> (r: bool)
    ensures
        r == name_set(names@).contains(name@),
{
    let mut i: usize = 0;
    while i < names.len()
        invariant
            i <= names@.len(),
            forall|j: int| 0 <= j < i ==> names@[j]@ != name@,
        decreases names@.len() - i,
    {
        if names[i] == *name {
            return true;
        }
        i = i + 1;
    }
    false
}

/// Builds the environment of a provider process from the host's variables
/// (`host`, in the order the host lists them), the names it may inherit
/// (`allow_list`) and the caller's own variables (`extra_env`). Nothing else
/// of the host reaches the provider.
pub fn create_env_for_mcp_server(
    allow_list: &Vec<String>,
    host: &Vec<(String, String)>,
    extra_env: Option<Vec<(String, String)>>,
) -> (r: EnvVars)
    ensures
        r.wf(),
        r.view() == sanitized_env(
            allow_list@,
            host@,
            match extra_env {
                Some(e) => e@,
                None => Seq::empty(),
            },
        ),
{
    let ghost allowed = name_set(allow_list@);
    let mut env = EnvVars::new();
    assert(pairs_map(host@.subrange(0, 0)).restrict(allowed) =~= Map::empty());
    let mut i: usize = 0;
    while i < host.len()
        invariant
            i <= host@.len(),
            allowed == name_set(allow_list@),
            env.wf(),
            env.view() == pairs_map(host@.subrange(0, i as int)).restrict(allowed),
        decreases host@.len() - i,
    {
        let ghost before = env.view();
        assert(host@.subrange(0, i + 1).drop_last() =~= host@.subrange(0, i as int));
        assert(pairs_map(host@.subrange(0, i + 1)) == pairs_map(host@.subrange(0, i as int)).insert(
            host@[i as int].0@,
            host@[i as int].1@,
        ));
        if is_listed(allow_list, &host[i].0) {
            let name = host[i].0.clone();
            let value = host[i].1.clone();
            env.set(name, value);
            assert(env.view() == before.insert(host@[i as int].0@, host@[i as int].1@));
            assert(allowed.contains(host@[i as int].0@));
            assert(env.view() =~= pairs_map(host@.subrange(0, i + 1)).restrict(allowed));
        } else {
            assert(!allowed.contains(host@[i as int].0@));
            assert(env.view() =~= pairs_map(host@.subrange(0, i + 1)).restrict(allowed));
        }
        i = i + 1;
    }
    assert(host@.subrange(0, host@.len() as int) =~= host@);
    let ghost base = env.view();
    let extra = match extra_env {
        Some(e) => e,
        None => Vec::new(),
    };
    assert(base.union_prefer_right(pairs_map(extra@.subrange(0, 0))) =~= base);
    let mut j: usize = 0;
    while j < extra.len()
        invariant
            j <= extra@.len(),
            env.wf(),
            env.view() == base.union_prefer_right(pairs_map(extra@.subrange(0, j as int))),
        decreases extra@.len() - j,
    {
        assert(extra@.subrange(0, j + 1).drop_last() =~= extra@.subrange(0, j as int));
        assert(pairs_map(extra@.subrange(0, j + 1)) == pairs_map(extra@.subrange(0, j as int)).insert(
            extra@[j as int].0@,
            extra@[j as int].1@,
        ));
        env.set(extra[j].0.clone(), extra[j].1.clone());
        assert(env.view() =~= base.union_prefer_right(pairs_map(extra@.subrange(0, j + 1))));
        j = j + 1;
    }
    assert(extra@.subrange(0, extra@.len() as int) =~= extra@);
    env
}

} // verus!
