//! Fastboot device variables (`getvar` results) as a small association list
//! whose meaning is a finite map from variable name to value.
use vstd::prelude::*;
use crate::text::str_eq;

verus! {

/// The map that a list of (name, value) pairs denotes; later pairs win.
pub open spec fn pairs_map(entries: Seq<(String, String)>) -> Map<Seq<char>, Seq<char>>
    decreases entries.len(),
{
    if entries.len() == 0 {
        Map::empty()
    } else {
        pairs_map(entries.drop_last()).insert(entries.last().0@, entries.last().1@)
    }
}

/// No name occurs twice in the list.
pub open spec fn distinct_names(entries: Seq<(String, String)>) -> bool {
    forall|i: int, j: int|
        0 <= i < entries.len() && 0 <= j < entries.len() && i != j ==> entries[i].0@
            != entries[j].0@
}

proof fn lemma_pairs_map(entries: Seq<(String, String)>)
    requires
        distinct_names(entries),
    ensures
        forall|i: int|
            0 <= i < entries.len() ==> #[trigger] pairs_map(entries).contains_key(entries[i].0@)
                && pairs_map(entries)[entries[i].0@] == entries[i].1@,
        forall|k: Seq<char>|
            #[trigger] pairs_map(entries).contains_key(k) ==> exists|i: int|
                0 <= i < entries.len() && entries[i].0@ == k,
    decreases entries.len(),
{
    if entries.len() > 0 {
        let p = entries.drop_last();
        assert(distinct_names(p)) by {
            assert forall|i: int, j: int|
                0 <= i < p.len() && 0 <= j < p.len() && i != j implies p[i].0@ != p[j].0@ by {
                assert(p[i] == entries[i] && p[j] == entries[j]);
            }
        }
        lemma_pairs_map(p);
        let n = entries.len() - 1;
        assert(pairs_map(entries) == pairs_map(p).insert(entries[n].0@, entries[n].1@));
        assert forall|i: int| 0 <= i < entries.len() implies #[trigger] pairs_map(
            entries,
        ).contains_key(entries[i].0@) && pairs_map(entries)[entries[i].0@] == entries[i].1@ by {
            if i < n {
                assert(p[i] == entries[i]);
                assert(entries[i].0@ != entries[n].0@);
                assert(pairs_map(p).contains_key(p[i].0@));
            }
        }
        assert forall|k: Seq<char>| #[trigger] pairs_map(entries).contains_key(k) implies exists|
            i: int,
        | 0 <= i < entries.len() && entries[i].0@ == k by {
            if k != entries[n].0@ {
                assert(pairs_map(p).contains_key(k));
                let i = choose|i: int| 0 <= i < p.len() && p[i].0@ == k;
                assert(entries[i] == p[i]);
            }
        }
    }
}

/// Fastboot variables reported by a device, keyed by name.
#[derive(Debug)]
pub struct DeviceVars {
    entries: Vec<(String, String)>,
}

impl View for DeviceVars {
    type V = Map<Seq<char>, Seq<char>>;

    closed spec fn view(&self) -> Map<Seq<char>, Seq<char>> {
        pairs_map(self.entries@)
    }
}

impl DeviceVars {
    #[verifier::type_invariant]
    closed spec fn names_unique(self) -> bool {
        distinct_names(self.entries@)
    }

    /// No variables.
    pub fn new() -> (r: DeviceVars)
        ensures
            r@ == Map::<Seq<char>, Seq<char>>::empty(),
    {
        DeviceVars { entries: Vec::new() }
    }

    fn find(&self, name: &str) -> (r: Option<usize>)
        ensures
            match r {
                Some(i) => i < self.entries@.len() && self.entries@[i as int].0@ == name@,
                None => forall|i: int|
                    0 <= i < self.entries@.len() ==> self.entries@[i].0@ != name@,
            },
    {
        let mut i: usize = 0;
        while i < self.entries.len()
            invariant
                i <= self.entries@.len(),
                forall|k: int| 0 <= k < i ==> self.entries@[k].0@ != name@,
            decreases self.entries@.len() - i,
        {
            if str_eq(self.entries[i].0.as_str(), name) {
                return Some(i);
            }
            i += 1;
        }
        None
    }

    /// The value of variable `name`, if the device reported it.
    pub fn get(&self, name: &str) -> (r: Option<&str>)
        ensures
            match r {
                Some(v) => self@.contains_key(name@) && self@[name@] == v@,
                None => !self@.contains_key(name@),
            },
    {
        proof {
            use_type_invariant(self);
            lemma_pairs_map(self.entries@);
        }
        match self.find(name) {
            Some(i) => {
                assert(pairs_map(self.entries@).contains_key(self.entries@[i as int].0@));
                Some(self.entries[i].1.as_str())
            },
            None => {
                assert(!pairs_map(self.entries@).contains_key(name@));
                None
            },
        }
    }

    /// Whether the device reported variable `name`.
    pub fn contains(&self, name: &str) -> (r: bool)
        ensures
            r == self@.contains_key(name@),
    {
        self.get(name).is_some()
    }

    /// Set variable `name` to `value`, replacing an earlier value.
    pub fn insert(&mut self, name: String, value: String)
        ensures
            final(self)@ == old(self)@.insert(name@, value@),
    {
        proof {
            use_type_invariant(&*self);
            lemma_pairs_map(self.entries@);
        }
        let ghost old_entries = self.entries@;
        let ghost old_map = self@;
        match self.find(name.as_str()) {
            Some(i) => {
                let mut entries: Vec<(String, String)> = Vec::new();
                std::mem::swap(&mut entries, &mut self.entries);
                entries.set(i, (name, value));
                let ghost ne = entries@;
                assert(distinct_names(ne)) by {
                    assert forall|a: int, b: int|
                        0 <= a < ne.len() && 0 <= b < ne.len() && a != b implies ne[a].0@
                        != ne[b].0@ by {
                        if a != i && b != i {
                            assert(ne[a] == old_entries[a] && ne[b] == old_entries[b]);
                        } else if a == i {
                            assert(ne[b] == old_entries[b]);
                        } else {
                            assert(ne[a] == old_entries[a]);
                        }
                    }
                }
                proof {
                    lemma_pairs_map(ne);
                    assert(pairs_map(ne) =~= old_map.insert(name@, value@)) by {
                        assert forall|k: Seq<char>|
                            #[trigger] pairs_map(ne).contains_key(k) <==> old_map.insert(
                                name@,
                                value@,
                            ).contains_key(k) by {
                            if pairs_map(ne).contains_key(k) {
                                let a = choose|a: int| 0 <= a < ne.len() && ne[a].0@ == k;
                                if a != i {
                                    assert(ne[a] == old_entries[a]);
                                    assert(old_map.contains_key(old_entries[a].0@));
                                }
                            }
                            if old_map.contains_key(k) && k != name@ {
                                let a = choose|a: int|
                                    0 <= a < old_entries.len() && old_entries[a].0@ == k;
                                assert(ne[a] == old_entries[a]);
                                assert(pairs_map(ne).contains_key(ne[a].0@));
                            }
                            assert(pairs_map(ne).contains_key(ne[i as int].0@));
                        }
                        assert forall|k: Seq<char>| #[trigger]
                            pairs_map(ne).contains_key(k) implies pairs_map(ne)[k] == old_map.insert(
                            name@,
                            value@,
                        )[k] by {
                            let a = choose|a: int| 0 <= a < ne.len() && ne[a].0@ == k;
                            if a != i {
                                assert(ne[a] == old_entries[a]);
                            }
                        }
                    }
                }
                self.entries = entries;
            },
            None => {
                let mut entries: Vec<(String, String)> = Vec::new();
                std::mem::swap(&mut entries, &mut self.entries);
                entries.push((name, value));
                let ghost ne = entries@;
                assert(ne.drop_last() =~= old_entries);
                assert(distinct_names(ne)) by {
                    assert forall|a: int, b: int|
                        0 <= a < ne.len() && 0 <= b < ne.len() && a != b implies ne[a].0@
                        != ne[b].0@ by {
                        if a < old_entries.len() {
                            assert(ne[a] == old_entries[a]);
                        }
                        if b < old_entries.len() {
                            assert(ne[b] == old_entries[b]);
                        }
                    }
                }
                self.entries = entries;
            },
        }
    }

    /// A copy of these variables.
    pub fn copy(&self) -> (r: DeviceVars)
        ensures
            r@ == self@,
    {
        proof {
            use_type_invariant(self);
        }
        let mut entries: Vec<(String, String)> = Vec::new();
        let mut i: usize = 0;
        while i < self.entries.len()
            invariant
                i <= self.entries@.len(),
                entries@.len() == i,
                forall|k: int|
                    0 <= k < i ==> #[trigger] entries@[k].0@ == self.entries@[k].0@
                        && entries@[k].1@ == self.entries@[k].1@,
            decreases self.entries@.len() - i,
        {
            let name = self.entries[i].0.clone();
            let value = self.entries[i].1.clone();
            entries.push((name, value));
            i += 1;
        }
        proof {
            lemma_pairs_map_same(entries@, self.entries@);
        }
        DeviceVars { entries }
    }

    /// Number of variables.
    pub fn len(&self) -> (r: usize)
        ensures
            r == self@.len(),
    {
        proof {
            use_type_invariant(self);
            lemma_pairs_map(self.entries@);
            lemma_pairs_map_len(self.entries@);
        }
        self.entries.len()
    }

    /// The (name, value) pairs, in the order they were first inserted.
    pub fn pairs(&self) -> (r: &Vec<(String, String)>)
        ensures
            pairs_map(r@) == self@,
            distinct_names(r@),
    {
        proof {
            use_type_invariant(self);
        }
        &self.entries
    }
}

proof fn lemma_pairs_map_len(entries: Seq<(String, String)>)
    requires
        distinct_names(entries),
    ensures
        pairs_map(entries).len() == entries.len(),
        pairs_map(entries).dom().finite(),
    decreases entries.len(),
{
    if entries.len() > 0 {
        let p = entries.drop_last();
        assert(distinct_names(p)) by {
            assert forall|i: int, j: int|
                0 <= i < p.len() && 0 <= j < p.len() && i != j implies p[i].0@ != p[j].0@ by {
                assert(p[i] == entries[i] && p[j] == entries[j]);
            }
        }
        lemma_pairs_map_len(p);
        lemma_pairs_map(p);
        let n = entries.len() - 1;
        assert(!pairs_map(p).contains_key(entries[n].0@)) by {
            if pairs_map(p).contains_key(entries[n].0@) {
                let i = choose|i: int| 0 <= i < p.len() && p[i].0@ == entries[n].0@;
                assert(p[i] == entries[i]);
            }
        }
    }
}

proof fn lemma_pairs_map_same(a: Seq<(String, String)>, b: Seq<(String, String)>)
    requires
        a.len() == b.len(),
        forall|k: int| 0 <= k < a.len() ==> #[trigger] a[k].0@ == b[k].0@ && a[k].1@ == b[k].1@,
    ensures
        pairs_map(a) == pairs_map(b),
        distinct_names(a) == distinct_names(b),
    decreases a.len(),
{
    if a.len() > 0 {
        lemma_pairs_map_same(a.drop_last(), b.drop_last());
        assert(a.last() == a[a.len() - 1]);
        assert(b.last() == b[b.len() - 1]);
    }
    if distinct_names(b) {
        assert forall|i: int, j: int|
            0 <= i < a.len() && 0 <= j < a.len() && i != j implies a[i].0@ != a[j].0@ by {
            assert(a[i].0@ == b[i].0@);
            assert(a[j].0@ == b[j].0@);
        }
    }
    if distinct_names(a) {
        assert forall|i: int, j: int|
            0 <= i < b.len() && 0 <= j < b.len() && i != j implies b[i].0@ != b[j].0@ by {
            assert(a[i].0@ == b[i].0@);
            assert(a[j].0@ == b[j].0@);
        }
    }
}

/// Reading a variable right after setting it gives the value that was set,
/// and setting one variable leaves every other variable as it was.
pub proof fn law_get_after_insert(
    before: Map<Seq<char>, Seq<char>>,
    after: Map<Seq<char>, Seq<char>>,
    name: Seq<char>,
    value: Seq<char>,
)
    requires
        after == before.insert(name, value),
    ensures
        after.contains_key(name) && after[name] == value,
        forall|other: Seq<char>|
            other != name ==> (after.contains_key(other) == before.contains_key(other) && (
            before.contains_key(other) ==> after[other] == before[other])),
{
}


/// What the app reports about the connected device.
#[derive(Debug)]
pub struct DeviceInfo {
    pub connected: bool,
    pub serial: Option<String>,
    pub vars: DeviceVars,
}

impl DeviceInfo {
    /// No device could be reached.
    pub fn disconnected() -> (r: DeviceInfo)
        ensures
            !r.connected,
            r.serial is None,
            r.vars@ == Map::<Seq<char>, Seq<char>>::empty(),
    {
        DeviceInfo { connected: false, serial: None, vars: DeviceVars::new() }
    }

    /// A connected device with the variables it reported; the serial is
    /// the value of the variable named `serial`.
    pub fn connected_with(vars: DeviceVars) -> (r: DeviceInfo)
        ensures
            r.connected,
            r.vars@ == vars@,
            match r.serial {
                Some(s) => vars@.contains_key("serial"@) && s@ == vars@["serial"@],
                None => !vars@.contains_key("serial"@),
            },
    {
        let serial = match vars.get("serial") {
            Some(s) => Some(crate::text::owned(s)),
            None => None,
        };
        DeviceInfo { connected: true, serial, vars }
    }
}

} // verus!
