//! Sets of members filed under account ids.
//!
//! The marketplace keeps two such indexes: the proposal ids placed by each
//! proposer on an offering, and the offerings listed by each offeror. An
//! account is present only while its set is not empty.

use vstd::prelude::*;

verus! {

/// A value that can be filed in an [`AccountIndex`]: it can be compared with
/// and copied into another value of its kind, both by its view.
pub trait IndexMember: View + Sized {
    /// Whether the two values have the same view.
    fn same_as(&self, other: &Self) -> (b: bool)
        ensures
            b == (self@ == other@),
    ;

    /// A copy with the same view.
    fn duplicate(&self) -> (r: Self)
        ensures
            r@ == self@,
    ;
}

impl IndexMember for u64 {
    fn same_as(&self, other: &u64) -> (b: bool) {
        *self == *other
    }

    fn duplicate(&self) -> (r: u64) {
        *self
    }
}

/// The members filed under one account.
pub struct IndexEntry<M> {
    pub account_id: String,
    pub members: Vec<M>,
}

/// Sets of members keyed by account id.
pub struct AccountIndex<M> {
    pub entries: Vec<IndexEntry<M>>,
}

/// The views of the members held in a sequence.
pub open spec fn member_views<M: View>(s: Seq<M>) -> Set<M::V> {
    Set::new(|v: M::V| exists|j: int| 0 <= j < s.len() && s[j]@ == v)
}

/// No two members of the sequence have the same view.
pub open spec fn distinct_views<M: View>(s: Seq<M>) -> bool {
    forall|i: int, j: int| 0 <= i < j < s.len() ==> s[i]@ != s[j]@
}

proof fn lemma_member_views_push<M: View>(s: Seq<M>, x: M)
    ensures
        member_views(s.push(x)) == member_views(s).insert(x@),
{
    let t = s.push(x);
    assert forall|v: M::V| member_views(t).contains(v) <==> member_views(s).insert(x@).contains(v) by {
        if member_views(s).contains(v) {
            let j = choose|j: int| 0 <= j < s.len() && s[j]@ == v;
            assert(t[j] == s[j]);
        }
        if v == x@ {
            assert(t[s.len() as int] == x);
        }
        if member_views(t).contains(v) {
            let j = choose|j: int| 0 <= j < t.len() && t[j]@ == v;
            if j < s.len() {
                assert(s[j] == t[j]);
            }
        }
    }
    assert(member_views(t) =~= member_views(s).insert(x@));
}

proof fn lemma_member_views_remove<M: View>(s: Seq<M>, j: int)
    requires
        0 <= j < s.len(),
        distinct_views(s),
    ensures
        member_views(s.remove(j)) == member_views(s).remove(s[j]@),
        distinct_views(s.remove(j)),
{
    let t = s.remove(j);
    assert forall|v: M::V| member_views(t).contains(v) <==> member_views(s).remove(s[j]@).contains(v) by {
        if member_views(t).contains(v) {
            let k = choose|k: int| 0 <= k < t.len() && t[k]@ == v;
            if k < j {
                assert(t[k] == s[k]);
            } else {
                assert(t[k] == s[k + 1]);
            }
        }
        if member_views(s).remove(s[j]@).contains(v) {
            let k = choose|k: int| 0 <= k < s.len() && s[k]@ == v;
            assert(k != j);
            if k < j {
                assert(t[k] == s[k]);
            } else {
                assert(t[k - 1] == s[k]);
            }
        }
    }
    assert(member_views(t) =~= member_views(s).remove(s[j]@));
    assert forall|a: int, b: int| 0 <= a < b < t.len() implies t[a]@ != t[b]@ by {
        let a0 = if a < j { a } else { a + 1 };
        let b0 = if b < j { b } else { b + 1 };
        assert(t[a] == s[a0]);
        assert(t[b] == s[b0]);
    }
}

proof fn lemma_member_views_single<M: View>(x: M)
    ensures
        member_views(seq![x]) == Set::<M::V>::empty().insert(x@),
        distinct_views(seq![x]),
{
    lemma_member_views_push(Seq::<M>::empty(), x);
    assert(Seq::<M>::empty().push(x) =~= seq![x]);
    assert(member_views(Seq::<M>::empty()) =~= Set::<M::V>::empty());
}

impl<M: View> AccountIndex<M> {
    /// Some entry is filed under the account.
    pub closed spec fn holds(self, a: Seq<char>) -> bool {
        exists|i: int| 0 <= i < self.entries.len() && self.entries[i].account_id@ == a
    }

    /// The position of the account's entry.
    pub closed spec fn slot(self, a: Seq<char>) -> int {
        choose|i: int| 0 <= i < self.entries.len() && self.entries[i].account_id@ == a
    }

    /// No account has two entries, and every entry holds a non-empty set of
    /// members without repetition.
    pub closed spec fn well_formed(self) -> bool {
        &&& forall|i: int, j: int|
            0 <= i < j < self.entries.len() ==> self.entries[i].account_id@
                != self.entries[j].account_id@
        &&& forall|i: int|
            0 <= i < self.entries.len() ==> self.entries[i].members.len() > 0
                && distinct_views(#[trigger] self.entries[i].members@)
    }

    proof fn lemma_slot(self, i: int)
        requires
            self.well_formed(),
            0 <= i < self.entries.len(),
        ensures
            self.holds(self.entries[i].account_id@),
            self.slot(self.entries[i].account_id@) == i,
    {
        let a = self.entries[i].account_id@;
        let k = self.slot(a);
        if k != i {
            if k < i {
                assert(self.entries[k].account_id@ != self.entries[i].account_id@);
            } else {
                assert(self.entries[i].account_id@ != self.entries[k].account_id@);
            }
        }
    }
}

impl<M: View> View for AccountIndex<M> {
    type V = Map<Seq<char>, Set<M::V>>;

    closed spec fn view(&self) -> Map<Seq<char>, Set<M::V>> {
        Map::new(
            |a: Seq<char>| self.holds(a),
            |a: Seq<char>| member_views(self.entries[self.slot(a)].members@),
        )
    }
}

impl<M: IndexMember> AccountIndex<M> {
    /// An index with no entries.
    pub fn new() -> (r: Self)
        ensures
            r.well_formed(),
            r@ == Map::<Seq<char>, Set<M::V>>::empty(),
    {
        let r = AccountIndex { entries: Vec::new() };
        assert(r@ =~= Map::<Seq<char>, Set<M::V>>::empty());
        r
    }

    fn find(&self, a: &String) -> (r: Option<usize>)
        ensures
            match r {
                Some(i) => i < self.entries.len() && self.entries[i as int].account_id@ == a@,
                None => !self.holds(a@),
            },
    {
        let mut i: usize = 0;
        while i < self.entries.len()
            invariant
                i <= self.entries.len(),
                forall|k: int| 0 <= k < i ==> self.entries[k].account_id@ != a@,
            decreases self.entries.len() - i,
        {
            if self.entries[i].account_id == *a {
                return Some(i);
            }
            i = i + 1;
        }
        None
    }

    /// The members filed under the account, if any.
    pub fn get(&self, a: &String) -> (r: Option<&Vec<M>>)
        requires
            self.well_formed(),
        ensures
            r is Some <==> self@.contains_key(a@),
            r matches Some(v) ==> member_views(v@) == self@[a@],
    {
        match self.find(a) {
            Some(i) => {
                proof {
                    self.lemma_slot(i as int);
                }
                Some(&self.entries[i].members)
            },
            None => None,
        }
    }
}

impl<M: IndexMember> AccountIndex<M> {
    /// Files the member under the account (a set: filing it twice changes nothing).
    pub fn insert_member(&mut self, a: String, m: M)
        requires
            old(self).well_formed(),
        ensures
            final(self).well_formed(),
            final(self)@ == old(self)@.insert(
                a@,
                if old(self)@.contains_key(a@) {
                    old(self)@[a@].insert(m@)
                } else {
                    Set::<M::V>::empty().insert(m@)
                },
            ),
    {
        let ghost pre = *self;
        match self.find(&a) {
            Some(i) => {
                proof {
                    pre.lemma_slot(i as int);
                }
                match position_of(&self.entries[i].members, &m) {
                    Some(j) => {
                        proof {
                            let s = pre.entries[i as int].members@;
                            assert(member_views(s).contains(s[j as int]@));
                            assert(pre@.contains_key(a@));
                            assert(pre@[a@].insert(m@) =~= pre@[a@]);
                        }
                        assert(self@ =~= pre@.insert(a@, pre@[a@].insert(m@)));
                    },
                    None => {
                        let ghost old_members = pre.entries[i as int].members@;
                        let mut e = self.entries.remove(i);
                        e.members.push(m);
                        self.entries.insert(i, e);
                        proof {
                            assert(self.entries@ =~= pre.entries@.update(i as int, e));
                            lemma_member_views_push(old_members, m);
                            assert forall|x: int, y: int|
                                0 <= x < y < self.entries.len() implies self.entries[x].account_id@
                                != self.entries[y].account_id@ by {
                                assert(self.entries[x].account_id@ == pre.entries[x].account_id@);
                                assert(self.entries[y].account_id@ == pre.entries[y].account_id@);
                            }
                            assert forall|x: int, y: int|
                                0 <= x < y < e.members.len() implies e.members[x]@
                                != e.members[y]@ by {
                                if y == old_members.len() {
                                    assert(member_views(old_members).contains(e.members[x]@));
                                }
                            }
                            assert forall|x: int|
                                0 <= x < self.entries.len() implies self.entries[x].members.len() > 0
                                && distinct_views(#[trigger] self.entries[x].members@) by {
                                if x != i {
                                    assert(self.entries[x] == pre.entries[x]);
                                }
                            }
                            assert forall|k: Seq<char>|
                                self.holds(k) == pre.holds(k) by {
                                if self.holds(k) {
                                    let x = choose|x: int|
                                        0 <= x < self.entries.len() && self.entries[x].account_id@ == k;
                                    assert(pre.entries[x].account_id@ == k);
                                }
                                if pre.holds(k) {
                                    let x = choose|x: int|
                                        0 <= x < pre.entries.len() && pre.entries[x].account_id@ == k;
                                    assert(self.entries[x].account_id@ == k);
                                }
                            }
                            let target = pre@.insert(a@, pre@[a@].insert(m@));
                            assert forall|k: Seq<char>| self@.contains_key(k) implies self@[k] == target[k] by {
                                let x = choose|x: int|
                                    0 <= x < self.entries.len() && self.entries[x].account_id@ == k;
                                self.lemma_slot(x);
                                pre.lemma_slot(x);
                            }
                            assert(self@ =~= target);
                        }
                    },
                }
            },
            None => {
                let ghost key = a@;
                let mut members: Vec<M> = Vec::new();
                members.push(m);
                let e = IndexEntry { account_id: a, members };
                self.entries.push(e);
                proof {
                    assert(members@ =~= seq![m]);
                    lemma_member_views_single(m);
                    let n = pre.entries.len() as int;
                    assert forall|x: int, y: int|
                        0 <= x < y < self.entries.len() implies self.entries[x].account_id@
                        != self.entries[y].account_id@ by {
                        if y == n {
                            assert(self.entries[x] == pre.entries[x]);
                        } else {
                            assert(self.entries[x] == pre.entries[x]);
                            assert(self.entries[y] == pre.entries[y]);
                        }
                    }
                    assert forall|x: int|
                        0 <= x < self.entries.len() implies self.entries[x].members.len() > 0
                        && distinct_views(#[trigger] self.entries[x].members@) by {
                        if x < n {
                            assert(self.entries[x] == pre.entries[x]);
                        }
                    }
                    let target = pre@.insert(key, Set::<M::V>::empty().insert(m@));
                    assert forall|k: Seq<char>| #[trigger] self.holds(k) == (pre.holds(k) || k == key) by {
                        if self.holds(k) {
                            let x = choose|x: int|
                                0 <= x < self.entries.len() && self.entries[x].account_id@ == k;
                            if x < n {
                                assert(self.entries[x] == pre.entries[x]);
                            }
                        }
                        if pre.holds(k) {
                            let x = choose|x: int|
                                0 <= x < pre.entries.len() && pre.entries[x].account_id@ == k;
                            assert(self.entries[x] == pre.entries[x]);
                        }
                        if k == key {
                            assert(self.entries[n].account_id@ == key);
                        }
                    }
                    assert forall|k: Seq<char>| self@.contains_key(k) implies self@[k] == target[k] by {
                        let x = choose|x: int|
                            0 <= x < self.entries.len() && self.entries[x].account_id@ == k;
                        self.lemma_slot(x);
                        if x < n {
                            assert(self.entries[x] == pre.entries[x]);
                            pre.lemma_slot(x);
                        }
                    }
                    assert(self@ =~= target);
                }
            },
        }
    }

    /// Takes the member out of the account's set, and the account out of the
    /// index when its set becomes empty. Returns whether the member was filed
    /// there.
    pub fn remove_member(&mut self, a: &String, m: &M) -> (removed: bool)
        requires
            old(self).well_formed(),
        ensures
            final(self).well_formed(),
            removed == (old(self)@.contains_key(a@) && old(self)@[a@].contains(m@)),
            !removed ==> final(self)@ == old(self)@,
            removed ==> final(self)@ == (if old(self)@[a@].remove(m@) == Set::<M::V>::empty() {
                old(self)@.remove(a@)
            } else {
                old(self)@.insert(a@, old(self)@[a@].remove(m@))
            }),
    {
        let ghost pre = *self;
        match self.find(a) {
            None => false,
            Some(i) => {
                proof {
                    pre.lemma_slot(i as int);
                }
                match position_of(&self.entries[i].members, m) {
                    None => false,
                    Some(j) => {
                        let ghost old_members = pre.entries[i as int].members@;
                        let mut e = self.entries.remove(i);
                        e.members.remove(j);
                        proof {
                            lemma_member_views_remove(old_members, j as int);
                            assert(old_members[j as int]@ == m@);
                        }
                        let ghost rest = pre@[a@].remove(m@);
                        if e.members.len() == 0 {
                            proof {
                                assert(e.members@ =~= Seq::<M>::empty());
                                assert(member_views(Seq::<M>::empty()) =~= Set::<M::V>::empty());
                                let n = pre.entries.len() as int;
                                assert forall|x: int, y: int|
                                    0 <= x < y < self.entries.len() implies self.entries[x].account_id@
                                    != self.entries[y].account_id@ by {
                                    let x0 = if x < i { x } else { x + 1 };
                                    let y0 = if y < i { y } else { y + 1 };
                                    assert(self.entries[x] == pre.entries[x0]);
                                    assert(self.entries[y] == pre.entries[y0]);
                                }
                                assert forall|x: int|
                                    0 <= x < self.entries.len() implies self.entries[x].members.len() > 0
                                    && distinct_views(#[trigger] self.entries[x].members@) by {
                                    let x0 = if x < i { x } else { x + 1 };
                                    assert(self.entries[x] == pre.entries[x0]);
                                }
                                let target = pre@.remove(a@);
                                assert forall|k: Seq<char>| #[trigger] self.holds(k) == (pre.holds(k) && k != a@) by {
                                    if self.holds(k) {
                                        let x = choose|x: int|
                                            0 <= x < self.entries.len() && self.entries[x].account_id@ == k;
                                        let x0 = if x < i { x } else { x + 1 };
                                        assert(self.entries[x] == pre.entries[x0]);
                                        pre.lemma_slot(x0);
                                    }
                                    if pre.holds(k) && k != a@ {
                                        let x = choose|x: int|
                                            0 <= x < pre.entries.len() && pre.entries[x].account_id@ == k;
                                        assert(x != i);
                                        let x1 = if x < i { x } else { x - 1 };
                                        assert(self.entries[x1] == pre.entries[x]);
                                    }
                                }
                                assert forall|k: Seq<char>| self@.contains_key(k) implies self@[k] == target[k] by {
                                    let x = choose|x: int|
                                        0 <= x < self.entries.len() && self.entries[x].account_id@ == k;
                                    self.lemma_slot(x);
                                    let x0 = if x < i { x } else { x + 1 };
                                    assert(self.entries[x] == pre.entries[x0]);
                                    pre.lemma_slot(x0);
                                }
                                assert(self@ =~= target);
                                assert(rest == Set::<M::V>::empty());
                            }
                        } else {
                            self.entries.insert(i, e);
                            proof {
                                assert(self.entries@ =~= pre.entries@.update(i as int, e));
                                assert(e.members@.len() > 0);
                                assert(member_views(e.members@).contains(e.members@[0]@));
                                assert(rest != Set::<M::V>::empty()) by {
                                    assert(rest.contains(e.members@[0]@));
                                }
                                assert forall|x: int, y: int|
                                    0 <= x < y < self.entries.len() implies self.entries[x].account_id@
                                    != self.entries[y].account_id@ by {
                                    assert(self.entries[x].account_id@ == pre.entries[x].account_id@);
                                    assert(self.entries[y].account_id@ == pre.entries[y].account_id@);
                                }
                                assert forall|x: int|
                                    0 <= x < self.entries.len() implies self.entries[x].members.len() > 0
                                    && distinct_views(#[trigger] self.entries[x].members@) by {
                                    if x != i {
                                        assert(self.entries[x] == pre.entries[x]);
                                    }
                                }
                                assert forall|k: Seq<char>|
                                    self.holds(k) == pre.holds(k) by {
                                    if self.holds(k) {
                                        let x = choose|x: int|
                                            0 <= x < self.entries.len() && self.entries[x].account_id@ == k;
                                        assert(pre.entries[x].account_id@ == k);
                                    }
                                    if pre.holds(k) {
                                        let x = choose|x: int|
                                            0 <= x < pre.entries.len() && pre.entries[x].account_id@ == k;
                                        assert(self.entries[x].account_id@ == k);
                                    }
                                }
                                let target = pre@.insert(a@, rest);
                                assert forall|k: Seq<char>| self@.contains_key(k) implies self@[k] == target[k] by {
                                    let x = choose|x: int|
                                        0 <= x < self.entries.len() && self.entries[x].account_id@ == k;
                                    self.lemma_slot(x);
                                    pre.lemma_slot(x);
                                }
                                assert(self@ =~= target);
                            }
                        }
                        true
                    },
                }
            },
        }
    }
}

fn position_of<M: IndexMember>(members: &Vec<M>, m: &M) -> (r: Option<usize>)
    ensures
        match r {
            Some(j) => j < members.len() && members[j as int]@ == m@,
            None => !member_views(members@).contains(m@),
        },
{
    let mut j: usize = 0;
    while j < members.len()
        invariant
            j <= members.len(),
            forall|k: int| 0 <= k < j ==> members[k]@ != m@,
        decreases members.len() - j,
    {
        if members[j].same_as(m) {
            return Some(j);
        }
        j = j + 1;
    }
    None
}

} // verus!
