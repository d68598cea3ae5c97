//! The register store: at most one scratchpad per register number.

use vstd::prelude::*;

verus! {

/// A register bound to one compositor window, with a cache of that window's
/// title and application id.
#[derive(Debug, PartialEq, Eq, Hash)]
pub struct Scratchpad {
    pub title: Option<String>,
    pub app_id: Option<String>,
    pub id: u64,
    pub scratchpad_number: i32,
}

impl Clone for Scratchpad {
    fn clone(&self) -> (r: Self)
        ensures
            r == *self,
    {
        Scratchpad {
            title: self.title.clone(),
            app_id: self.app_id.clone(),
            id: self.id,
            scratchpad_number: self.scratchpad_number,
        }
    }
}

/// The numbers in `s` are pairwise distinct.
pub open spec fn unique_numbers(s: Seq<Scratchpad>) -> bool {
    forall|i: int, j: int|
        0 <= i < s.len() && 0 <= j < s.len() && i != j ==> s[i].scratchpad_number
            != s[j].scratchpad_number
}

/// The registers of `s`, keyed by number.
pub open spec fn to_map(s: Seq<Scratchpad>) -> Map<i32, Scratchpad>
    decreases s.len(),
{
    if s.len() == 0 {
        Map::empty()
    } else {
        to_map(s.drop_last()).insert(s.last().scratchpad_number, s.last())
    }
}

/// Some register of `s` has number `n`.
pub open spec fn has_number(s: Seq<Scratchpad>, n: i32) -> bool {
    exists|i: int| 0 <= i < s.len() && s[i].scratchpad_number == n
}

/// The map holds exactly the numbers of `s`.
pub proof fn lemma_to_map_dom(s: Seq<Scratchpad>, n: i32)
    ensures
        to_map(s).contains_key(n) <==> has_number(s, n),
    decreases s.len(),
{
    if s.len() > 0 {
        lemma_to_map_dom(s.drop_last(), n);
        if has_number(s, n) && s.last().scratchpad_number != n {
            let i = choose|i: int| 0 <= i < s.len() && s[i].scratchpad_number == n;
            assert(s.drop_last()[i].scratchpad_number == n);
        }
        if has_number(s.drop_last(), n) {
            let i = choose|i: int|
                0 <= i < s.drop_last().len() && s.drop_last()[i].scratchpad_number == n;
            assert(s[i].scratchpad_number == n);
        }
    }
}

/// The map keys each register by its own number.
pub proof fn lemma_to_map_keys(s: Seq<Scratchpad>, n: i32)
    ensures
        to_map(s).contains_key(n) ==> to_map(s)[n].scratchpad_number == n,
    decreases s.len(),
{
    if s.len() > 0 {
        lemma_to_map_keys(s.drop_last(), n);
    }
}

/// With distinct numbers, each register of `s` is what the map holds for
/// its number.
pub proof fn lemma_to_map_value(s: Seq<Scratchpad>, i: int)
    requires
        unique_numbers(s),
        0 <= i < s.len(),
    ensures
        to_map(s).contains_key(s[i].scratchpad_number),
        to_map(s)[s[i].scratchpad_number] == s[i],
    decreases s.len(),
{
    if i < s.len() - 1 {
        assert(unique_numbers(s.drop_last()));
        lemma_to_map_value(s.drop_last(), i);
    }
}

/// A map that agrees with the registers of a duplicate-free `s` is their map.
pub proof fn lemma_to_map_equal(s: Seq<Scratchpad>, m: Map<i32, Scratchpad>)
    requires
        unique_numbers(s),
        forall|n: i32| m.contains_key(n) <==> has_number(s, n),
        forall|i: int| 0 <= i < s.len() ==> m[#[trigger] s[i].scratchpad_number] == s[i],
    ensures
        to_map(s) == m,
{
    assert forall|n: i32| to_map(s).contains_key(n) <==> m.contains_key(n) by {
        lemma_to_map_dom(s, n);
    }
    assert forall|n: i32| #[trigger] to_map(s).contains_key(n) implies to_map(s)[n] == m[n] by {
        lemma_to_map_dom(s, n);
        let i = choose|i: int| 0 <= i < s.len() && s[i].scratchpad_number == n;
        lemma_to_map_value(s, i);
    }
    assert(to_map(s) =~= m);
}

/// The store holds register `n`, as what `to_map` gives for it.
pub open spec fn lookup(m: Map<i32, Scratchpad>, n: i32) -> Option<Scratchpad> {
    if m.contains_key(n) {
        Some(m[n])
    } else {
        None
    }
}

/// What `add_scratchpad` reports.
pub enum AddResult {
    /// The number was free; a new register now holds it.
    Added,
    /// The number was bound already; this register was replaced in place.
    AlreadyExists(Scratchpad),
}

/// One mutation of a batch that `syncronize_scratchpads` applies.
pub enum ScratchpadUpdate {
    /// Insert, or replace the register of the same number.
    Add(Scratchpad),
    /// Overwrite the register of the same number, if there is one.
    Update(Scratchpad),
    /// Remove the register of this number, if there is one.
    Delete(i32),
}

/// The store after one update.
pub open spec fn apply_update(m: Map<i32, Scratchpad>, u: ScratchpadUpdate) -> Map<i32, Scratchpad> {
    match u {
        ScratchpadUpdate::Add(sp) => m.insert(sp.scratchpad_number, sp),
        ScratchpadUpdate::Update(sp) => if m.contains_key(sp.scratchpad_number) {
            m.insert(sp.scratchpad_number, sp)
        } else {
            m
        },
        ScratchpadUpdate::Delete(n) => m.remove(n),
    }
}

/// The store after a batch of updates, applied in order.
pub open spec fn apply_updates(m: Map<i32, Scratchpad>, us: Seq<ScratchpadUpdate>) -> Map<
    i32,
    Scratchpad,
>
    decreases us.len(),
{
    if us.len() == 0 {
        m
    } else {
        apply_update(apply_updates(m, us.drop_last()), us.last())
    }
}

/// The in-memory register store.
pub struct State {
    pub scratchpads: Vec<Scratchpad>,
}

impl View for State {
    type V = Map<i32, Scratchpad>;

    open spec fn view(&self) -> Map<i32, Scratchpad> {
        to_map(self.scratchpads@)
    }
}

impl State {
    /// No two registers share a number.
    pub open spec fn wf(&self) -> bool {
        unique_numbers(self.scratchpads@)
    }

    /// An empty store.
    pub fn new() -> (r: State)
        ensures
            r.wf(),
            r@ == Map::<i32, Scratchpad>::empty(),
    {
        State { scratchpads: Vec::new() }
    }

    /// The position of register `n`, if the store holds it.
    fn index_of(&self, scratchpad_number: i32) -> (r: Option<usize>)
        requires
            self.wf(),
        ensures
            match r {
                Some(i) => i < self.scratchpads@.len() && self.scratchpads@[i as int].scratchpad_number
                    == scratchpad_number,
                None => !has_number(self.scratchpads@, scratchpad_number),
            },
    {
        let mut i: usize = 0;
        while i < self.scratchpads.len()
            invariant
                i <= self.scratchpads@.len(),
                forall|j: int| 0 <= j < i ==> self.scratchpads@[j].scratchpad_number != scratchpad_number,
            decreases self.scratchpads@.len() - i,
        {
            if self.scratchpads[i].scratchpad_number == scratchpad_number {
                return Some(i);
            }
            i = i + 1;
        }
        None
    }

    /// Puts `sp` at position `i`, where the register of its number stands.
    fn replace_at(&mut self, i: usize, sp: Scratchpad)
        requires
            old(self).wf(),
            i < old(self).scratchpads@.len(),
            old(self).scratchpads@[i as int].scratchpad_number == sp.scratchpad_number,
        ensures
            final(self).wf(),
            final(self)@ == old(self)@.insert(sp.scratchpad_number, sp),
    {
        let ghost s0 = self.scratchpads@;
        let ghost n = sp.scratchpad_number;
        self.scratchpads.set(i, sp);
        proof {
            let s1 = self.scratchpads@;
            assert(s1 == s0.update(i as int, sp));
            let m = to_map(s0).insert(n, sp);
            assert forall|k: i32| m.contains_key(k) <==> has_number(s1, k) by {
                lemma_to_map_dom(s0, k);
                if has_number(s0, k) {
                    let j = choose|j: int| 0 <= j < s0.len() && s0[j].scratchpad_number == k;
                    assert(s1[j].scratchpad_number == k);
                }
                if has_number(s1, k) {
                    let j = choose|j: int| 0 <= j < s1.len() && s1[j].scratchpad_number == k;
                    assert(s0[j].scratchpad_number == k);
                }
            }
            assert forall|j: int| 0 <= j < s1.len() implies m[#[trigger] s1[j].scratchpad_number]
                == s1[j] by {
                if j != i {
                    lemma_to_map_value(s0, j);
                }
            }
            lemma_to_map_equal(s1, m);
        }
    }

    /// Removes the register at position `i`.
    fn remove_at(&mut self, i: usize)
        requires
            old(self).wf(),
            i < old(self).scratchpads@.len(),
        ensures
            final(self).wf(),
            final(self)@ == old(self)@.remove(old(self).scratchpads@[i as int].scratchpad_number),
    {
        let ghost s0 = self.scratchpads@;
        let ghost n = s0[i as int].scratchpad_number;
        self.scratchpads.remove(i);
        proof {
            let s1 = self.scratchpads@;
            assert(s1 == s0.remove(i as int));
            let m = to_map(s0).remove(n);
            assert forall|k: i32| m.contains_key(k) <==> has_number(s1, k) by {
                lemma_to_map_dom(s0, k);
                if has_number(s0, k) && k != n {
                    let j = choose|j: int| 0 <= j < s0.len() && s0[j].scratchpad_number == k;
                    if j < i {
                        assert(s1[j].scratchpad_number == k);
                    } else {
                        assert(s1[j - 1].scratchpad_number == k);
                    }
                }
                if has_number(s1, k) {
                    let j = choose|j: int| 0 <= j < s1.len() && s1[j].scratchpad_number == k;
                    if j < i {
                        assert(s0[j].scratchpad_number == k);
                    } else {
                        assert(s0[j + 1].scratchpad_number == k);
                    }
                }
            }
            assert forall|j: int| 0 <= j < s1.len() implies m[#[trigger] s1[j].scratchpad_number]
                == s1[j] by {
                if j < i {
                    lemma_to_map_value(s0, j);
                } else {
                    lemma_to_map_value(s0, j + 1);
                }
            }
            lemma_to_map_equal(s1, m);
        }
    }

    /// Binds register `scratchpad_number` to window `id`, replacing in place
    /// any register of that number.
    pub fn add_scratchpad(
        &mut self,
        scratchpad_number: i32,
        id: u64,
        title: Option<String>,
        app_id: Option<String>,
    ) -> (r: AddResult)
        requires
            old(self).wf(),
        ensures
            final(self).wf(),
            final(self)@ == old(self)@.insert(
                scratchpad_number,
                Scratchpad { title, app_id, id, scratchpad_number },
            ),
            match lookup(old(self)@, scratchpad_number) {
                Some(prev) => r == AddResult::AlreadyExists(prev),
                None => r == AddResult::Added,
            },
    {
        let sp = Scratchpad { title, app_id, id, scratchpad_number };
        match self.index_of(scratchpad_number) {
            Some(i) => {
                let prev = self.scratchpads[i].clone();
                proof {
                    lemma_to_map_value(self.scratchpads@, i as int);
                }
                self.replace_at(i, sp);
                AddResult::AlreadyExists(prev)
            },
            None => {
                proof {
                    lemma_to_map_dom(self.scratchpads@, scratchpad_number);
                }
                self.scratchpads.push(sp);
                proof {
                    let s1 = self.scratchpads@;
                    assert(s1.drop_last() == old(self).scratchpads@);
                    assert forall|i: int, j: int|
                        0 <= i < s1.len() && 0 <= j < s1.len() && i != j implies s1[i].scratchpad_number
                        != s1[j].scratchpad_number by {
                        if i == s1.len() - 1 {
                            assert(s1.drop_last()[j].scratchpad_number == s1[j].scratchpad_number);
                        }
                        if j == s1.len() - 1 {
                            assert(s1.drop_last()[i].scratchpad_number == s1[i].scratchpad_number);
                        }
                    }
                }
                AddResult::Added
            },
        }
    }

    /// Forgets register `scratchpad_number`, whatever its window's state.
    pub fn delete_scratchpad(&mut self, scratchpad_number: i32)
        requires
            old(self).wf(),
        ensures
            final(self).wf(),
            final(self)@ == old(self)@.remove(scratchpad_number),
    {
        match self.index_of(scratchpad_number) {
            Some(i) => self.remove_at(i),
            None => {
                proof {
                    lemma_to_map_dom(self.scratchpads@, scratchpad_number);
                    assert(self@ =~= self@.remove(scratchpad_number));
                }
            },
        }
    }

    /// A copy of register `scratchpad_number`, if the store holds it.
    pub fn get_scratchpad_by_number(&self, scratchpad_number: i32) -> (r: Option<Scratchpad>)
        requires
            self.wf(),
        ensures
            r == lookup(self@, scratchpad_number),
            r matches Some(sp) ==> sp.scratchpad_number == scratchpad_number,
    {
        proof {
            lemma_to_map_keys(self.scratchpads@, scratchpad_number);
        }
        match self.index_of(scratchpad_number) {
            Some(i) => {
                proof {
                    lemma_to_map_value(self.scratchpads@, i as int);
                }
                Some(self.scratchpads[i].clone())
            },
            None => {
                proof {
                    lemma_to_map_dom(self.scratchpads@, scratchpad_number);
                }
                None
            },
        }
    }

    /// Register `scratchpad_number`, if the store holds it.
    pub fn get_scratchpad_ref_by_number(&self, scratchpad_number: i32) -> (r: Option<&Scratchpad>)
        requires
            self.wf(),
        ensures
            match r {
                Some(sp) => lookup(self@, scratchpad_number) == Some(*sp),
                None => lookup(self@, scratchpad_number) is None,
            },
            r matches Some(sp) ==> sp.scratchpad_number == scratchpad_number,
    {
        proof {
            lemma_to_map_keys(self.scratchpads@, scratchpad_number);
        }
        match self.index_of(scratchpad_number) {
            Some(i) => {
                proof {
                    lemma_to_map_value(self.scratchpads@, i as int);
                }
                Some(&self.scratchpads[i])
            },
            None => {
                proof {
                    lemma_to_map_dom(self.scratchpads@, scratchpad_number);
                }
                None
            },
        }
    }

    /// Every register of the store, each once.
    pub fn get_tracked_scratchpads(&self) -> (r: Vec<&Scratchpad>)
        ensures
            r@.len() == self.scratchpads@.len(),
            forall|i: int| 0 <= i < r@.len() ==> *r@[i] == self.scratchpads@[i],
    {
        let mut r: Vec<&Scratchpad> = Vec::new();
        let mut i: usize = 0;
        while i < self.scratchpads.len()
            invariant
                i <= self.scratchpads@.len(),
                r@.len() == i,
                forall|j: int| 0 <= j < i ==> *r@[j] == self.scratchpads@[j],
            decreases self.scratchpads@.len() - i,
        {
            r.push(&self.scratchpads[i]);
            i = i + 1;
        }
        r
    }

    /// Overwrites the register of `scratchpad_update`'s number; a number the
    /// store does not hold is ignored.
    pub fn update_scratchpad(&mut self, scratchpad_update: Scratchpad)
        requires
            old(self).wf(),
        ensures
            final(self).wf(),
            final(self)@ == apply_update(old(self)@, ScratchpadUpdate::Update(scratchpad_update)),
    {
        match self.index_of(scratchpad_update.scratchpad_number) {
            Some(i) => {
                proof {
                    lemma_to_map_dom(self.scratchpads@, scratchpad_update.scratchpad_number);
                }
                self.replace_at(i, scratchpad_update);
            },
            None => {
                proof {
                    lemma_to_map_dom(self.scratchpads@, scratchpad_update.scratchpad_number);
                }
            },
        }
    }

    /// Applies a batch of updates in order.
    pub fn syncronize_scratchpads(&mut self, scratchpad_updates: Vec<ScratchpadUpdate>)
        requires
            old(self).wf(),
        ensures
            final(self).wf(),
            final(self)@ == apply_updates(old(self)@, scratchpad_updates@),
    {
        let ghost us = scratchpad_updates@;
        let ghost m0 = self@;
        for scratchpad_update in it: scratchpad_updates
            invariant
                self.wf(),
                it.seq() == us,
                self@ == apply_updates(m0, us.take(it.index() as int)),
        {
            proof {
                assert(us.take(it.index() as int + 1).drop_last() == us.take(it.index() as int));
            }
            match scratchpad_update {
                ScratchpadUpdate::Add(sp) => {
                    let n = sp.scratchpad_number;
                    let (id, title, app_id) = (sp.id, sp.title, sp.app_id);
                    self.add_scratchpad(n, id, title, app_id);
                },
                ScratchpadUpdate::Update(sp) => self.update_scratchpad(sp),
                ScratchpadUpdate::Delete(n) => self.delete_scratchpad(n),
            }
        }
        proof {
            assert(us.take(us.len() as int) == us);
        }
    }
}

impl Default for State {
    fn default() -> (r: State)
        ensures
            r.wf(),
            r@ == Map::<i32, Scratchpad>::empty(),
    {
        State::new()
    }
}

} // verus!
