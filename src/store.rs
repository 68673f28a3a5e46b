//! The preset store: a mapping from preset name to its ordered command list.
use vstd::prelude::*;

verus! {

/// A store seen as a map from preset name to its command lines.
pub type StoreMap = Map<Seq<char>, Seq<Seq<char>>>;

/// What an operation on the store, or on its stored document, can fail with.
#[derive(Debug, Clone, Copy, PartialEq, Eq, Structural)]
pub enum StoreError {
    PresetAlreadyExists,
    PresetNotFound,
    IndexOutOfRange,
    CommandNotPresent,
    StorageUnreadable,
    StorageUnwritable,
}

/// One named preset: its name and its commands, in execution order.
#[derive(Debug)]
pub struct Preset {
    pub name: String,
    pub commands: Vec<String>,
}

/// The command lines of a list of strings.
pub open spec fn lines_of(v: Seq<String>) -> Seq<Seq<char>> {
    v.map_values(|s: String| s@)
}

/// No two presets of `s` share a name.
pub open spec fn unique_names(s: Seq<Preset>) -> bool {
    forall|i: int, j: int|
        0 <= i < s.len() && 0 <= j < s.len() && i != j ==> s[i].name@ != s[j].name@
}

/// Some preset of `s` is named `k`.
pub open spec fn names_contain(s: Seq<Preset>, k: Seq<char>) -> bool {
    exists|i: int| 0 <= i < s.len() && s[i].name@ == k
}

/// The map from each name in `s` to the command lines of a preset of that name.
pub open spec fn presets_map(s: Seq<Preset>) -> StoreMap {
    Map::new(
        |k: Seq<char>| names_contain(s, k),
        |k: Seq<char>| lines_of(s[choose|i: int| 0 <= i < s.len() && s[i].name@ == k].commands@),
    )
}

/// Position of the first occurrence of `c` in `l` is `i`.
pub open spec fn first_occurrence(l: Seq<Seq<char>>, c: Seq<char>, i: int) -> bool {
    0 <= i < l.len() && l[i] == c && forall|j: int| 0 <= j < i ==> l[j] != c
}

/// The store after `create(name)`, or the error it fails with.
pub open spec fn after_create(m: StoreMap, name: Seq<char>) -> Result<StoreMap, StoreError> {
    if m.contains_key(name) {
        Err(StoreError::PresetAlreadyExists)
    } else {
        Ok(m.insert(name, Seq::empty()))
    }
}

/// The store after `append(name, c)`, or the error it fails with.
pub open spec fn after_append(m: StoreMap, name: Seq<char>, c: Seq<char>) -> Result<
    StoreMap,
    StoreError,
> {
    if !m.contains_key(name) {
        Err(StoreError::PresetNotFound)
    } else {
        Ok(m.insert(name, m[name].push(c)))
    }
}

/// The store after `insert(name, i, c)`, or the error it fails with.
pub open spec fn after_insert(m: StoreMap, name: Seq<char>, i: int, c: Seq<char>) -> Result<
    StoreMap,
    StoreError,
> {
    if !m.contains_key(name) {
        Err(StoreError::PresetNotFound)
    } else if i > m[name].len() {
        Err(StoreError::IndexOutOfRange)
    } else {
        Ok(m.insert(name, m[name].insert(i, c)))
    }
}

/// The store after `remove_by_value(name, c)`, or the error it fails with.
pub open spec fn after_remove(m: StoreMap, name: Seq<char>, c: Seq<char>) -> Result<
    StoreMap,
    StoreError,
> {
    if !m.contains_key(name) {
        Err(StoreError::PresetNotFound)
    } else if !m[name].contains(c) {
        Err(StoreError::CommandNotPresent)
    } else {
        let i = choose|i: int| first_occurrence(m[name], c, i);
        Ok(m.insert(name, m[name].remove(i)))
    }
}

/// The store after `pop(name, i)` with the command it removes, or the error
/// it fails with.
pub open spec fn after_pop(m: StoreMap, name: Seq<char>, i: int) -> Result<
    (StoreMap, Seq<char>),
    StoreError,
> {
    if !m.contains_key(name) {
        Err(StoreError::PresetNotFound)
    } else if i >= m[name].len() {
        Err(StoreError::IndexOutOfRange)
    } else {
        Ok((m.insert(name, m[name].remove(i)), m[name][i]))
    }
}

/// The store after `delete(name)`, or the error it fails with.
pub open spec fn after_delete(m: StoreMap, name: Seq<char>) -> Result<StoreMap, StoreError> {
    if !m.contains_key(name) {
        Err(StoreError::PresetNotFound)
    } else {
        Ok(m.remove(name))
    }
}

/// Presets keyed by name; names are unique.
pub struct PresetStore {
    presets: Vec<Preset>,
}

impl View for PresetStore {
    type V = StoreMap;

    closed spec fn view(&self) -> StoreMap {
        presets_map(self.presets@)
    }
}

/// In a list with unique names, the preset at `i` is the one its name maps to.
proof fn lemma_lookup(s: Seq<Preset>, i: int)
    requires
        unique_names(s),
        0 <= i < s.len(),
    ensures
        presets_map(s).contains_key(s[i].name@),
        presets_map(s)[s[i].name@] == lines_of(s[i].commands@),
{
    let k = s[i].name@;
    assert(names_contain(s, k));
    let j = choose|j: int| 0 <= j < s.len() && s[j].name@ == k;
    assert(i == j);
}

/// Replacing the commands of the preset at `i` replaces the list its name maps to.
proof fn lemma_update(s: Seq<Preset>, i: int, p: Preset)
    requires
        unique_names(s),
        0 <= i < s.len(),
        p.name@ == s[i].name@,
    ensures
        unique_names(s.update(i, p)),
        presets_map(s.update(i, p)) == presets_map(s).insert(p.name@, lines_of(p.commands@)),
{
    let t = s.update(i, p);
    assert forall|k: Seq<char>| names_contain(t, k) <==> names_contain(s, k) by {
        if names_contain(s, k) {
            let j = choose|j: int| 0 <= j < s.len() && s[j].name@ == k;
            assert(t[j].name@ == k);
        }
        if names_contain(t, k) {
            let j = choose|j: int| 0 <= j < t.len() && t[j].name@ == k;
            assert(s[j].name@ == k);
        }
    }
    assert forall|k: Seq<char>| #[trigger] names_contain(t, k) && k != p.name@ implies
        presets_map(t)[k] == presets_map(s)[k] by {
        let j = choose|j: int| 0 <= j < s.len() && s[j].name@ == k;
        lemma_lookup(s, j);
        lemma_lookup(t, j);
    }
    lemma_lookup(t, i);
    assert(presets_map(t) =~= presets_map(s).insert(p.name@, lines_of(p.commands@)));
}

/// Adding a preset under a fresh name maps that name to its commands.
proof fn lemma_push(s: Seq<Preset>, p: Preset)
    requires
        unique_names(s),
        !names_contain(s, p.name@),
    ensures
        unique_names(s.push(p)),
        presets_map(s.push(p)) == presets_map(s).insert(p.name@, lines_of(p.commands@)),
{
    let t = s.push(p);
    assert(unique_names(t));
    assert forall|k: Seq<char>| names_contain(t, k) <==> (names_contain(s, k) || k == p.name@) by {
        if names_contain(s, k) {
            let j = choose|j: int| 0 <= j < s.len() && s[j].name@ == k;
            assert(t[j].name@ == k);
        }
        if k == p.name@ {
            assert(t[s.len() as int].name@ == k);
        }
        if names_contain(t, k) && k != p.name@ {
            let j = choose|j: int| 0 <= j < t.len() && t[j].name@ == k;
            assert(s[j].name@ == k);
        }
    }
    assert forall|k: Seq<char>| #[trigger] names_contain(s, k) implies presets_map(t)[k]
        == presets_map(s)[k] by {
        let j = choose|j: int| 0 <= j < s.len() && s[j].name@ == k;
        lemma_lookup(s, j);
        lemma_lookup(t, j);
    }
    lemma_lookup(t, s.len() as int);
    assert(presets_map(t) =~= presets_map(s).insert(p.name@, lines_of(p.commands@)));
}

/// Taking out the preset at `i` takes its name out of the map.
proof fn lemma_remove(s: Seq<Preset>, i: int)
    requires
        unique_names(s),
        0 <= i < s.len(),
    ensures
        unique_names(s.remove(i)),
        presets_map(s.remove(i)) == presets_map(s).remove(s[i].name@),
{
    let t = s.remove(i);
    let n = s[i].name@;
    assert forall|a: int, b: int|
        0 <= a < t.len() && 0 <= b < t.len() && a != b implies t[a].name@ != t[b].name@ by {
        let a1 = if a < i { a } else { a + 1 };
        let b1 = if b < i { b } else { b + 1 };
        assert(t[a] == s[a1] && t[b] == s[b1]);
    }
    assert forall|k: Seq<char>| names_contain(t, k) <==> (names_contain(s, k) && k != n) by {
        if names_contain(s, k) && k != n {
            let j = choose|j: int| 0 <= j < s.len() && s[j].name@ == k;
            if j < i {
                assert(t[j].name@ == k);
            } else {
                assert(t[j - 1].name@ == k);
            }
        }
        if names_contain(t, k) {
            let j = choose|j: int| 0 <= j < t.len() && t[j].name@ == k;
            let j1 = if j < i { j } else { j + 1 };
            assert(s[j1].name@ == k);
        }
    }
    assert forall|k: Seq<char>| #[trigger] names_contain(t, k) implies presets_map(t)[k]
        == presets_map(s)[k] by {
        let j = choose|j: int| 0 <= j < t.len() && t[j].name@ == k;
        let j1 = if j < i { j } else { j + 1 };
        assert(t[j] == s[j1]);
        lemma_lookup(s, j1);
        lemma_lookup(t, j);
    }
    assert(presets_map(t) =~= presets_map(s).remove(n));
}

/// Position of the first command of `v` equal to `c`, if any.
fn position_of(v: &Vec<String>, c: &str) -> (r: Option<usize>)
    ensures
        match r {
            Some(i) => first_occurrence(lines_of(v@), c@, i as int),
            None => !lines_of(v@).contains(c@),
        },
{
    let key = String::from_str(c);
    let mut j: usize = 0;
    while j < v.len()
        invariant
            key@ == c@,
            j <= v@.len(),
            forall|k: int| 0 <= k < j ==> lines_of(v@)[k] != c@,
        decreases v@.len() - j,
    {
        if v[j] == key {
            return Some(j);
        }
        j = j + 1;
    }
    None
}

impl PresetStore {
    /// The store's presets have unique names.
    pub closed spec fn wf(&self) -> bool {
        unique_names(self.presets@)
    }

    /// A store with no presets.
    pub fn new() -> (r: PresetStore)
        ensures
            r.wf(),
            r@ == Map::<Seq<char>, Seq<Seq<char>>>::empty(),
    {
        let r = PresetStore { presets: Vec::new() };
        assert(r@ =~= Map::<Seq<char>, Seq<Seq<char>>>::empty());
        r
    }

    /// A store holding the given presets, whose names are unique.
    pub fn from_presets(presets: Vec<Preset>) -> (r: PresetStore)
        requires
            unique_names(presets@),
        ensures
            r.wf(),
            r@ == presets_map(presets@),
    {
        PresetStore { presets }
    }

    /// Every preset, in the store's own order: the whole mapping.
    pub fn list(&self) -> (r: &Vec<Preset>)
        requires
            self.wf(),
        ensures
            unique_names(r@),
            presets_map(r@) == self@,
    {
        &self.presets
    }

    /// Position of the preset named `name`, if there is one.
    fn find(&self, name: &str) -> (r: Option<usize>)
        requires
            self.wf(),
        ensures
            match r {
                Some(i) => i < self.presets@.len() && self.presets@[i as int].name@ == name@,
                None => !self@.contains_key(name@),
            },
    {
        let key = String::from_str(name);
        let mut i: usize = 0;
        while i < self.presets.len()
            invariant
                key@ == name@,
                i <= self.presets@.len(),
                forall|j: int| 0 <= j < i ==> self.presets@[j].name@ != name@,
            decreases self.presets@.len() - i,
        {
            if self.presets[i].name == key {
                return Some(i);
            }
            i = i + 1;
        }
        None
    }

    /// The commands of the preset named `name`, if there is one.
    pub fn get(&self, name: &str) -> (r: Option<&Vec<String>>)
        requires
            self.wf(),
        ensures
            match r {
                Some(v) => self@.contains_key(name@) && lines_of(v@) == self@[name@],
                None => !self@.contains_key(name@),
            },
    {
        match self.find(name) {
            None => None,
            Some(i) => {
                proof {
                    lemma_lookup(self.presets@, i as int);
                }
                Some(&self.presets[i].commands)
            },
        }
    }

    /// Adds an empty preset named `name`.
    pub fn create(&mut self, name: &str) -> (r: Result<(), StoreError>)
        requires
            old(self).wf(),
        ensures
            final(self).wf(),
            match after_create(old(self)@, name@) {
                Ok(m) => r is Ok && final(self)@ == m,
                Err(e) => r == Err::<(), StoreError>(e) && final(self)@ == old(self)@,
            },
    {
        match self.find(name) {
            Some(i) => {
                proof {
                    lemma_lookup(self.presets@, i as int);
                }
                Err(StoreError::PresetAlreadyExists)
            },
            None => {
                let p = Preset { name: String::from_str(name), commands: Vec::new() };
                proof {
                    assert(lines_of(p.commands@) =~= Seq::<Seq<char>>::empty());
                    if names_contain(self.presets@, name@) {
                        let j = choose|j: int|
                            0 <= j < self.presets@.len() && self.presets@[j].name@ == name@;
                        lemma_lookup(self.presets@, j);
                    }
                    lemma_push(self.presets@, p);
                }
                self.presets.push(p);
                Ok(())
            },
        }
    }

    /// Adds `command` at the end of the preset named `name`.
    pub fn append(&mut self, name: &str, command: &str) -> (r: Result<(), StoreError>)
        requires
            old(self).wf(),
        ensures
            final(self).wf(),
            match after_append(old(self)@, name@, command@) {
                Ok(m) => r is Ok && final(self)@ == m,
                Err(e) => r == Err::<(), StoreError>(e) && final(self)@ == old(self)@,
            },
    {
        match self.find(name) {
            None => Err(StoreError::PresetNotFound),
            Some(i) => {
                let ghost s = self.presets@;
                proof {
                    lemma_lookup(s, i as int);
                }
                self.presets[i].commands.push(String::from_str(command));
                proof {
                    let p = self.presets@[i as int];
                    assert(self.presets@ == s.update(i as int, p));
                    assert(lines_of(p.commands@) =~= lines_of(s[i as int].commands@).push(command@));
                    lemma_update(s, i as int, p);
                }
                Ok(())
            },
        }
    }

    /// Puts `command` at position `index` of the preset named `name`,
    /// shifting the later commands right; `index` may be the list's length.
    pub fn insert(&mut self, name: &str, index: usize, command: &str) -> (r: Result<(), StoreError>)
        requires
            old(self).wf(),
        ensures
            final(self).wf(),
            match after_insert(old(self)@, name@, index as int, command@) {
                Ok(m) => r is Ok && final(self)@ == m,
                Err(e) => r == Err::<(), StoreError>(e) && final(self)@ == old(self)@,
            },
    {
        match self.find(name) {
            None => Err(StoreError::PresetNotFound),
            Some(i) => {
                let ghost s = self.presets@;
                proof {
                    lemma_lookup(s, i as int);
                }
                if index > self.presets[i].commands.len() {
                    return Err(StoreError::IndexOutOfRange);
                }
                self.presets[i].commands.insert(index, String::from_str(command));
                proof {
                    let p = self.presets@[i as int];
                    assert(self.presets@ == s.update(i as int, p));
                    assert(lines_of(p.commands@) =~= lines_of(s[i as int].commands@).insert(
                        index as int,
                        command@,
                    ));
                    lemma_update(s, i as int, p);
                }
                Ok(())
            },
        }
    }

    /// Takes the first command equal to `command` out of the preset named `name`.
    pub fn remove_by_value(&mut self, name: &str, command: &str) -> (r: Result<(), StoreError>)
        requires
            old(self).wf(),
        ensures
            final(self).wf(),
            match after_remove(old(self)@, name@, command@) {
                Ok(m) => r is Ok && final(self)@ == m,
                Err(e) => r == Err::<(), StoreError>(e) && final(self)@ == old(self)@,
            },
    {
        match self.find(name) {
            None => Err(StoreError::PresetNotFound),
            Some(i) => {
                let ghost s = self.presets@;
                let ghost l = lines_of(s[i as int].commands@);
                proof {
                    lemma_lookup(s, i as int);
                }
                let j = match position_of(&self.presets[i].commands, command) {
                    None => {
                        return Err(StoreError::CommandNotPresent);
                    },
                    Some(j) => j,
                };
                proof {
                    assert(l.contains(command@));
                    let k = choose|k: int| first_occurrence(l, command@, k);
                    assert(k == j);
                }
                self.presets[i].commands.remove(j);
                proof {
                    let p = self.presets@[i as int];
                    assert(self.presets@ == s.update(i as int, p));
                    assert(lines_of(p.commands@) =~= l.remove(j as int));
                    lemma_update(s, i as int, p);
                }
                Ok(())
            },
        }
    }

    /// Takes the command at position `index` out of the preset named `name`
    /// and returns it.
    pub fn pop(&mut self, name: &str, index: usize) -> (r: Result<String, StoreError>)
        requires
            old(self).wf(),
        ensures
            final(self).wf(),
            match after_pop(old(self)@, name@, index as int) {
                Ok((m, c)) => r is Ok && r->Ok_0@ == c && final(self)@ == m,
                Err(e) => r is Err && r->Err_0 == e && final(self)@ == old(self)@,
            },
    {
        match self.find(name) {
            None => Err(StoreError::PresetNotFound),
            Some(i) => {
                let ghost s = self.presets@;
                proof {
                    lemma_lookup(s, i as int);
                }
                if index >= self.presets[i].commands.len() {
                    return Err(StoreError::IndexOutOfRange);
                }
                let c = self.presets[i].commands.remove(index);
                proof {
                    let p = self.presets@[i as int];
                    assert(self.presets@ == s.update(i as int, p));
                    assert(lines_of(p.commands@) =~= lines_of(s[i as int].commands@).remove(
                        index as int,
                    ));
                    lemma_update(s, i as int, p);
                }
                Ok(c)
            },
        }
    }

    /// Removes the preset named `name` with all its commands.
    pub fn delete(&mut self, name: &str) -> (r: Result<(), StoreError>)
        requires
            old(self).wf(),
        ensures
            final(self).wf(),
            match after_delete(old(self)@, name@) {
                Ok(m) => r is Ok && final(self)@ == m,
                Err(e) => r == Err::<(), StoreError>(e) && final(self)@ == old(self)@,
            },
    {
        match self.find(name) {
            None => Err(StoreError::PresetNotFound),
            Some(i) => {
                proof {
                    lemma_lookup(self.presets@, i as int);
                    lemma_remove(self.presets@, i as int);
                }
                self.presets.remove(i);
                Ok(())
            },
        }
    }
}


/// A value that occurs in a list has a first occurrence.
proof fn lemma_first_occurrence_exists(l: Seq<Seq<char>>, c: Seq<char>, k: int)
    requires
        0 <= k < l.len(),
        l[k] == c,
    ensures
        exists|i: int| first_occurrence(l, c, i),
    decreases k,
{
    if exists|j: int| 0 <= j < k && l[j] == c {
        let j = choose|j: int| 0 <= j < k && l[j] == c;
        lemma_first_occurrence_exists(l, c, j);
    } else {
        assert(first_occurrence(l, c, k));
    }
}

/// Creating a fresh name maps it to an empty list; creating the same name a
/// second time fails with `PresetAlreadyExists` and leaves the store as it was.
pub proof fn lemma_create_then_create(m: StoreMap, name: Seq<char>)
    requires
        !m.contains_key(name),
    ensures
        after_create(m, name) is Ok,
        after_create(m, name)->Ok_0.contains_key(name),
        after_create(m, name)->Ok_0[name] == Seq::<Seq<char>>::empty(),
        after_create(after_create(m, name)->Ok_0, name) == Err::<StoreMap, StoreError>(
            StoreError::PresetAlreadyExists,
        ),
{
}

/// Two appends leave the two commands at the end of the list, in the order
/// in which they were appended.
pub proof fn lemma_append_twice(m: StoreMap, name: Seq<char>, c1: Seq<char>, c2: Seq<char>)
    requires
        m.contains_key(name),
    ensures
        after_append(m, name, c1) is Ok,
        after_append(after_append(m, name, c1)->Ok_0, name, c2) == Ok::<StoreMap, StoreError>(
            m.insert(name, m[name] + seq![c1, c2]),
        ),
{
    let m1 = after_append(m, name, c1)->Ok_0;
    assert(m1[name].push(c2) =~= m[name] + seq![c1, c2]);
    assert(m1.insert(name, m1[name].push(c2)) =~= m.insert(name, m[name] + seq![c1, c2]));
}

/// Inserting at the list's length is appending; inserting past it fails
/// with `IndexOutOfRange`.
pub proof fn lemma_insert_at_end(m: StoreMap, name: Seq<char>, i: int, c: Seq<char>)
    requires
        m.contains_key(name),
        0 <= i,
    ensures
        i == m[name].len() ==> after_insert(m, name, i, c) == after_append(m, name, c),
        i > m[name].len() ==> after_insert(m, name, i, c) == Err::<StoreMap, StoreError>(
            StoreError::IndexOutOfRange,
        ),
{
    if i == m[name].len() {
        assert(m[name].insert(i, c) =~= m[name].push(c));
    }
}

/// Removing a command that is present takes out exactly one occurrence of
/// it, the first; removing one that is absent fails with `CommandNotPresent`.
pub proof fn lemma_remove_one_occurrence(m: StoreMap, name: Seq<char>, c: Seq<char>)
    requires
        m.contains_key(name),
    ensures
        m[name].contains(c) ==> {
            &&& after_remove(m, name, c) is Ok
            &&& after_remove(m, name, c)->Ok_0.contains_key(name)
            &&& after_remove(m, name, c)->Ok_0[name].to_multiset() == m[name].to_multiset().remove(c)
            &&& exists|i: int|
                first_occurrence(m[name], c, i) && after_remove(m, name, c)->Ok_0[name]
                    == m[name].remove(i)
        },
        !m[name].contains(c) ==> after_remove(m, name, c) == Err::<StoreMap, StoreError>(
            StoreError::CommandNotPresent,
        ),
{
    broadcast use vstd::seq_lib::group_to_multiset_ensures;

    let l = m[name];
    if l.contains(c) {
        let k = choose|k: int| 0 <= k < l.len() && l[k] == c;
        lemma_first_occurrence_exists(l, c, k);
        let i = choose|i: int| first_occurrence(l, c, i);
        assert(l.remove(i).to_multiset() == l.to_multiset().remove(l[i]));
    }
}

/// Popping a position inside the list returns the command there and
/// shortens the list by one; popping past its end fails with
/// `IndexOutOfRange`.
pub proof fn lemma_pop_shortens(m: StoreMap, name: Seq<char>, i: int)
    requires
        m.contains_key(name),
        0 <= i,
    ensures
        i < m[name].len() ==> {
            &&& after_pop(m, name, i) is Ok
            &&& after_pop(m, name, i)->Ok_0.1 == m[name][i]
            &&& after_pop(m, name, i)->Ok_0.0[name].len() == m[name].len() - 1
        },
        i >= m[name].len() ==> after_pop(m, name, i) == Err::<(StoreMap, Seq<char>), StoreError>(
            StoreError::IndexOutOfRange,
        ),
{
}

} // verus!
