use vstd::prelude::*;

verus! {

/// The position of the first entry named `name`, or -1.
pub open spec fn key_position<V>(entries: Seq<(Seq<char>, V)>, name: Seq<char>) -> int
    decreases entries.len(),
{
    if entries.len() == 0 {
        -1
    } else if entries[0].0 == name {
        0
    } else {
        let p = key_position(entries.drop_first(), name);
        if p >= 0 {
            p + 1
        } else {
            -1
        }
    }
}

/// The value of the first entry named `name`, if there is one.
pub open spec fn key_lookup<V>(entries: Seq<(Seq<char>, V)>, name: Seq<char>) -> Option<V> {
    let p = key_position(entries, name);
    if p >= 0 {
        Some(entries[p].1)
    } else {
        None
    }
}

/// The value the variable `name` holds, if it is set.
pub open spec fn var_lookup(entries: Seq<(Seq<char>, bool)>, name: Seq<char>) -> Option<bool> {
    key_lookup(entries, name)
}

/// The position of the variable `name`, or -1.
pub open spec fn var_position(entries: Seq<(Seq<char>, bool)>, name: Seq<char>) -> int {
    key_position(entries, name)
}

/// The entries after `name` is set to `value`: the existing entry changes in
/// place, or a new entry goes at the end.
pub open spec fn var_insert(entries: Seq<(Seq<char>, bool)>, name: Seq<char>, value: bool) -> Seq<(Seq<char>, bool)> {
    let p = var_position(entries, name);
    if p >= 0 {
        entries.update(p, (name, value))
    } else {
        entries.push((name, value))
    }
}

/// The first entry named `name` is at its position, and none comes before it.
pub proof fn lemma_key_position<V>(entries: Seq<(Seq<char>, V)>, name: Seq<char>)
    ensures
        -1 <= key_position(entries, name) < entries.len(),
        key_position(entries, name) >= 0 ==> entries[key_position(entries, name)].0 == name,
        forall|j: int|
            0 <= j < entries.len() && (key_position(entries, name) < 0 || j < key_position(
                entries,
                name,
            )) ==> entries[j].0 != name,
    decreases entries.len(),
{
    if entries.len() > 0 && entries[0].0 != name {
        lemma_key_position(entries.drop_first(), name);
        assert forall|j: int|
            0 <= j < entries.len() && (key_position(entries, name) < 0 || j < key_position(
                entries,
                name,
            )) implies entries[j].0 != name by {
            if j > 0 {
                assert(entries[j] == entries.drop_first()[j - 1]);
            }
        }
    }
}

/// The first entry named `name` sits at `p` when no earlier entry has that name.
pub proof fn lemma_key_position_at<V>(entries: Seq<(Seq<char>, V)>, name: Seq<char>, p: int)
    requires
        0 <= p < entries.len(),
        entries[p].0 == name,
        forall|j: int| 0 <= j < p ==> entries[j].0 != name,
    ensures
        key_position(entries, name) == p,
    decreases p,
{
    if p > 0 {
        assert forall|j: int| 0 <= j < p - 1 implies entries.drop_first()[j].0 != name by {
            assert(entries.drop_first()[j] == entries[j + 1]);
        }
        lemma_key_position_at(entries.drop_first(), name, p - 1);
    }
}

/// A name that no entry holds has no position.
pub proof fn lemma_key_absent<V>(entries: Seq<(Seq<char>, V)>, name: Seq<char>)
    requires
        forall|j: int| 0 <= j < entries.len() ==> entries[j].0 != name,
    ensures
        key_position(entries, name) == -1,
    decreases entries.len(),
{
    if entries.len() > 0 {
        assert forall|j: int| 0 <= j < entries.len() - 1 implies entries.drop_first()[j].0 != name by {
            assert(entries.drop_first()[j] == entries[j + 1]);
        }
        lemma_key_absent(entries.drop_first(), name);
    }
}

/// The named true/false switches that dialogues read and set.
#[derive(Debug)]
pub struct GlobalVariables {
    entries: Vec<(String, bool)>,
}

impl View for GlobalVariables {
    type V = Seq<(Seq<char>, bool)>;

    closed spec fn view(&self) -> Seq<(Seq<char>, bool)> {
        self.entries@.map_values(|e: (String, bool)| (e.0@, e.1))
    }
}

impl GlobalVariables {
    /// No variable at all.
    pub fn new() -> (r: GlobalVariables)
        ensures
            r@ == Seq::<(Seq<char>, bool)>::empty(),
    {
        let r = GlobalVariables { entries: Vec::new() };
        assert(r@ =~= Seq::<(Seq<char>, bool)>::empty());
        r
    }

    /// The position of the variable `name`, if it is set.
    fn position(&self, name: &String) -> (r: Option<usize>)
        ensures
            match r {
                Some(p) => var_position(self@, name@) == p && p < self@.len(),
                None => var_position(self@, name@) == -1,
            },
    {
        let mut i: usize = 0;
        while i < self.entries.len()
            invariant
                i <= self.entries@.len(),
                self@.len() == self.entries@.len(),
                forall|j: int| 0 <= j < i ==> self@[j].0 != name@,
            decreases self.entries.len() - i,
        {
            assert(self@[i as int] == (self.entries@[i as int].0@, self.entries@[i as int].1));
            if self.entries[i].0 == *name {
                proof {
                    lemma_key_position_at(self@, name@, i as int);
                }
                return Some(i);
            }
            i = i + 1;
        }
        proof {
            lemma_key_absent(self@, name@);
        }
        None
    }

    /// The value of the variable `name`, if it is set.
    pub fn get(&self, name: &String) -> (r: Option<bool>)
        ensures
            r == var_lookup(self@, name@),
    {
        proof {
            lemma_key_position(self@, name@);
        }
        match self.position(name) {
            Some(p) => {
                assert(self@[p as int] == (self.entries@[p as int].0@, self.entries@[p as int].1));
                Some(self.entries[p].1)
            },
            None => None,
        }
    }

    /// Sets the variable `name` to `value`.
    pub fn insert(&mut self, name: String, value: bool)
        ensures
            final(self)@ == var_insert(old(self)@, name@, value),
    {
        match self.position(&name) {
            Some(p) => {
                let ghost nv = name@;
                self.entries.set(p, (name, value));
                assert(self@ =~= old(self)@.update(p as int, (nv, value)));
            },
            None => {
                let ghost nv = name@;
                self.entries.push((name, value));
                assert(self@ =~= old(self)@.push((nv, value)));
            },
        }
    }

    /// A copy of the variables.
    pub fn duplicate(&self) -> (r: GlobalVariables)
        ensures
            r@ == self@,
    {
        let mut entries: Vec<(String, bool)> = Vec::new();
        let mut i: usize = 0;
        while i < self.entries.len()
            invariant
                i <= self.entries@.len(),
                entries@.map_values(|e: (String, bool)| (e.0@, e.1)) =~= self.entries@.take(
                    i as int,
                ).map_values(|e: (String, bool)| (e.0@, e.1)),
            decreases self.entries.len() - i,
        {
            let e = &self.entries[i];
            let ghost before = entries@;
            let name = e.0.clone();
            entries.push((name, e.1));
            assert(entries@ == before.push((name, e.1)));
            assert(entries@.map_values(|e: (String, bool)| (e.0@, e.1)) =~= before.map_values(
                |e: (String, bool)| (e.0@, e.1),
            ).push((e.0@, e.1)));
            assert(self.entries@.take(i + 1) =~= self.entries@.take(i as int).push(
                self.entries@[i as int],
            ));
            i = i + 1;
        }
        assert(self.entries@.take(i as int) =~= self.entries@);
        GlobalVariables { entries }
    }

    /// The variables with their values, in the order they were first set.
    pub fn entries(&self) -> (r: &Vec<(String, bool)>)
        ensures
            r@.map_values(|e: (String, bool)| (e.0@, e.1)) == self@,
    {
        &self.entries
    }
}

/// After setting a variable, reading it gives the value set, and every other
/// variable reads as before.
pub proof fn law_read_after_set(entries: Seq<(Seq<char>, bool)>, name: Seq<char>, value: bool, other: Seq<char>)
    ensures
        var_lookup(var_insert(entries, name, value), name) == Some(value),
        other != name ==> var_lookup(var_insert(entries, name, value), other) == var_lookup(
            entries,
            other,
        ),
{
    let after = var_insert(entries, name, value);
    lemma_key_position(entries, name);
    lemma_key_position(entries, other);
    lemma_key_position(after, name);
    lemma_key_position(after, other);
    let p = var_position(entries, name);
    if p >= 0 {
        lemma_key_position_at(after, name, p);
        if other != name {
            let q = var_position(entries, other);
            if q >= 0 {
                assert(after[q].0 == other);
                assert forall|j: int| 0 <= j < q implies after[j].0 != other by {
                    if j == p {
                    } else {
                        assert(after[j] == entries[j]);
                    }
                }
                lemma_key_position_at(after, other, q);
            } else {
                assert forall|j: int| 0 <= j < after.len() implies after[j].0 != other by {
                    if j != p {
                        assert(after[j] == entries[j]);
                    }
                }
                lemma_key_absent(after, other);
            }
        }
    } else {
        assert(after[entries.len() as int] == (name, value));
        assert forall|j: int| 0 <= j < entries.len() implies after[j].0 != name by {
            assert(after[j] == entries[j]);
        }
        lemma_key_position_at(after, name, entries.len() as int);
        if other != name {
            let q = var_position(entries, other);
            if q >= 0 {
                assert forall|j: int| 0 <= j < q implies after[j].0 != other by {
                    assert(after[j] == entries[j]);
                }
                assert(after[q] == entries[q]);
                lemma_key_position_at(after, other, q);
            } else {
                assert forall|j: int| 0 <= j < after.len() implies after[j].0 != other by {
                    if j < entries.len() {
                        assert(after[j] == entries[j]);
                    }
                }
                lemma_key_absent(after, other);
            }
        }
    }
}

} // verus!
