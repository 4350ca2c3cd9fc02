use vstd::prelude::*;

verus! {

/// Live session parameters reported by the server, by name.
pub struct ParameterMap {
    entries: Vec<(String, String)>,
    map: Ghost<Map<Seq<char>, Seq<char>>>,
}

impl View for ParameterMap {
    type V = Map<Seq<char>, Seq<char>>;

    closed spec fn view(&self) -> Map<Seq<char>, Seq<char>> {
        self.map@
    }
}

impl ParameterMap {
    pub closed spec fn wf(&self) -> bool {
        &&& forall|i: int| 0 <= i < self.entries@.len() ==> {
            &&& self.map@.contains_key(#[trigger] self.entries@[i].0@)
            &&& self.map@[self.entries@[i].0@] == self.entries@[i].1@
        }
        &&& forall|k: Seq<char>| #[trigger] self.map@.contains_key(k)
            ==> exists|i: int| 0 <= i < self.entries@.len() && #[trigger] self.entries@[i].0@ == k
        &&& forall|i: int, j: int| 0 <= i < self.entries@.len() && 0 <= j < self.entries@.len() && i != j
            ==> #[trigger] self.entries@[i].0@ != #[trigger] self.entries@[j].0@
    }

    pub fn new() -> (r: ParameterMap)
        ensures
            r.wf(),
            r@ == Map::<Seq<char>, Seq<char>>::empty(),
    {
        ParameterMap { entries: Vec::new(), map: Ghost(Map::empty()) }
    }

    /// Position of the entry named `name`, if any.
    fn find(&self, name: &String) -> (r: Option<usize>)
        requires
            self.wf(),
        ensures
            r matches Some(i) ==> i < self.entries@.len() && self.entries@[i as int].0@ == name@,
            r is None ==> !self@.contains_key(name@),
    {
        let mut i: usize = 0;
        while i < self.entries.len()
            invariant
                self.wf(),
                0 <= i <= self.entries@.len(),
                forall|j: int| 0 <= j < i ==> #[trigger] self.entries@[j].0@ != name@,
            decreases self.entries@.len() - i,
        {
            if self.entries[i].0 == *name {
                return Some(i);
            }
            i = i + 1;
        }
        None
    }

    /// Sets `name` to `value`, replacing an earlier value.
    pub fn insert(&mut self, name: String, value: String)
        requires
            old(self).wf(),
        ensures
            final(self).wf(),
            final(self)@ == old(self)@.insert(name@, value@),
    {
        let ghost key = name@;
        let ghost val = value@;
        let ghost old_entries = self.entries@;
        let found = self.find(&name);
        self.map = Ghost(self.map@.insert(key, val));
        match found {
            Some(i) => {
                self.entries.set(i, (name, value));
                assert forall|k: Seq<char>| #[trigger] self.map@.contains_key(k) implies
                    exists|j: int| 0 <= j < self.entries@.len() && #[trigger] self.entries@[j].0@ == k by {
                    if k == key {
                        assert(self.entries@[i as int].0@ == k);
                    } else {
                        let j = choose|j: int| 0 <= j < old_entries.len() && #[trigger] old_entries[j].0@ == k;
                        assert(self.entries@[j].0@ == k);
                    }
                }
            },
            None => {
                self.entries.push((name, value));
                let ghost n: int = self.entries@.len() - 1;
                assert forall|k: Seq<char>| #[trigger] self.map@.contains_key(k) implies
                    exists|j: int| 0 <= j < self.entries@.len() && #[trigger] self.entries@[j].0@ == k by {
                    if k == key {
                        assert(self.entries@[n].0@ == k);
                    } else {
                        let j = choose|j: int| 0 <= j < old_entries.len() && #[trigger] old_entries[j].0@ == k;
                        assert(self.entries@[j].0@ == k);
                    }
                }
            },
        }
    }

    /// The value of `name`, if the server reported one.
    pub fn get(&self, name: &String) -> (r: Option<&String>)
        requires
            self.wf(),
        ensures
            r is None <==> !self@.contains_key(name@),
            r matches Some(v) ==> v@ == self@[name@],
    {
        match self.find(name) {
            Some(i) => Some(&self.entries[i].1),
            None => None,
        }
    }
}

} // verus!
