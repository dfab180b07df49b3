//! Saved account profiles and the choice of the account to use.

use vstd::prelude::*;

use crate::rate::opt_str;
use crate::text::{
    lemma_text_less_irreflexive, strings_view, lemma_text_less_total, lemma_text_less_transitive, same_text, text_before,
    text_less,
};

verus! {

/// One saved account profile.
#[derive(Debug, Clone, PartialEq, Eq)]
pub struct Account {
    pub api_base: String,
    pub token: Option<String>,
    pub email: Option<String>,
    pub tier: Option<String>,
}

impl Account {
    /// Whether the profile holds a token.
    pub fn logged_in(&self) -> (r: bool)
        ensures
            r == self.token is Some,
    {
        self.token.is_some()
    }

    /// An identical profile.
    pub fn copy(&self) -> (r: Account)
        ensures
            r == *self,
    {
        Account {
            api_base: self.api_base.clone(),
            token: copy_option(&self.token),
            email: copy_option(&self.email),
            tier: copy_option(&self.tier),
        }
    }
}

fn copy_option(o: &Option<String>) -> (r: Option<String>)
    ensures
        r == *o,
{
    match o {
        Some(s) => Some(s.clone()),
        None => None,
    }
}

/// Names in strictly ascending order.
pub open spec fn ascending(names: Seq<Seq<char>>) -> bool {
    forall|i: int, j: int| 0 <= i < j < names.len() ==> text_less(#[trigger] names[i], #[trigger] names[j])
}

/// `names` holds each key of `m` and nothing else.
pub open spec fn lists_keys(names: Seq<Seq<char>>, m: Map<Seq<char>, Account>) -> bool {
    &&& names.len() == m.len()
    &&& forall|i: int| 0 <= i < names.len() ==> m.contains_key(#[trigger] names[i])
    &&& forall|k: Seq<char>| #[trigger] m.contains_key(k) ==> exists|i: int| 0 <= i < names.len() && names[i] == k
}

/// Entries in ascending order of their names, as a `BTreeMap` keeps them.
pub open spec fn sorted_names(entries: Seq<(String, Account)>) -> bool {
    forall|i: int, j: int|
        0 <= i < j < entries.len() ==> text_less((#[trigger] entries[i]).0@, (#[trigger] entries[j]).0@)
}

pub proof fn lemma_sorted_distinct(entries: Seq<(String, Account)>)
    requires
        sorted_names(entries),
    ensures
        distinct_names(entries),
{
    assert forall|i: int, j: int| 0 <= i < j < entries.len() implies (#[trigger] entries[i]).0@
        != (#[trigger] entries[j]).0@ by {
        lemma_text_less_irreflexive(entries[i].0@);
    }
}

/// The account map of entries with pairwise different names.
pub open spec fn distinct_names(entries: Seq<(String, Account)>) -> bool {
    forall|i: int, j: int|
        0 <= i < j < entries.len() ==> (#[trigger] entries[i]).0@ != (#[trigger] entries[j]).0@
}

pub open spec fn entries_map(entries: Seq<(String, Account)>) -> Map<Seq<char>, Account>
    decreases entries.len(),
{
    if entries.len() == 0 {
        Map::empty()
    } else {
        entries_map(entries.drop_last()).insert(entries.last().0@, entries.last().1)
    }
}

pub proof fn lemma_entries_map(entries: Seq<(String, Account)>)
    requires
        distinct_names(entries),
    ensures
        entries_map(entries).dom().finite(),
        entries_map(entries).dom().len() == entries.len(),
        forall|k: Seq<char>|
            #[trigger] entries_map(entries).contains_key(k) <==> exists|i: int|
                0 <= i < entries.len() && (#[trigger] entries[i]).0@ == k,
        forall|i: int|
            0 <= i < entries.len() ==> #[trigger] entries_map(entries)[entries[i].0@] == entries[i].1,
    decreases entries.len(),
{
    broadcast use {vstd::map::group_map_axioms, vstd::set::group_set_axioms};

    if entries.len() > 0 {
        let front = entries.drop_last();
        assert(distinct_names(front)) by {
            assert forall|i: int, j: int| 0 <= i < j < front.len() implies (#[trigger] front[i]).0@
                != (#[trigger] front[j]).0@ by {
                assert(front[i] == entries[i] && front[j] == entries[j]);
            }
        }
        lemma_entries_map(front);
        let last = entries.last();
        assert(!entries_map(front).contains_key(last.0@)) by {
            if entries_map(front).contains_key(last.0@) {
                let i = choose|i: int| 0 <= i < front.len() && (#[trigger] front[i]).0@ == last.0@;
                assert(entries[i] == front[i]);
                assert(entries[entries.len() - 1] == last);
            }
        }
        assert forall|k: Seq<char>|
            #[trigger] entries_map(entries).contains_key(k) <==> exists|i: int|
                0 <= i < entries.len() && (#[trigger] entries[i]).0@ == k by {
            if entries_map(entries).contains_key(k) {
                if k == last.0@ {
                    assert(entries[entries.len() - 1].0@ == k);
                } else {
                    let i = choose|i: int| 0 <= i < front.len() && (#[trigger] front[i]).0@ == k;
                    assert(entries[i] == front[i]);
                }
            }
            if exists|i: int| 0 <= i < entries.len() && (#[trigger] entries[i]).0@ == k {
                let i = choose|i: int| 0 <= i < entries.len() && (#[trigger] entries[i]).0@ == k;
                if i < entries.len() - 1 {
                    assert(front[i] == entries[i]);
                }
            }
        }
        assert forall|i: int| 0 <= i < entries.len() implies #[trigger] entries_map(entries)[entries[i].0@]
            == entries[i].1 by {
            if i < entries.len() - 1 {
                assert(front[i] == entries[i]);
                assert(entries[i].0@ != entries[entries.len() - 1].0@);
            }
        }
    }
}

/// The names of the saved accounts that hold a token.
pub open spec fn logged_in_names(m: Map<Seq<char>, Account>) -> Set<Seq<char>> {
    m.dom().filter(|k: Seq<char>| m[k].token is Some)
}

pub open spec fn count_logged_in(entries: Seq<(String, Account)>) -> nat
    decreases entries.len(),
{
    if entries.len() == 0 {
        0
    } else {
        count_logged_in(entries.drop_last()) + if entries.last().1.token is Some {
            1nat
        } else {
            0nat
        }
    }
}

proof fn lemma_logged_in_count(entries: Seq<(String, Account)>)
    requires
        distinct_names(entries),
    ensures
        logged_in_names(entries_map(entries)).finite(),
        logged_in_names(entries_map(entries)).len() == count_logged_in(entries),
    decreases entries.len(),
{
    broadcast use {vstd::map::group_map_axioms, vstd::set::group_set_axioms};

    lemma_entries_map(entries);
    let m = entries_map(entries);
    m.dom().lemma_len_filter(|k: Seq<char>| m[k].token is Some);
    if entries.len() > 0 {
        let front = entries.drop_last();
        assert(distinct_names(front)) by {
            assert forall|i: int, j: int| 0 <= i < j < front.len() implies (#[trigger] front[i]).0@
                != (#[trigger] front[j]).0@ by {
                assert(front[i] == entries[i] && front[j] == entries[j]);
            }
        }
        lemma_logged_in_count(front);
        lemma_entries_map(front);
        let f = entries_map(front);
        let last = entries.last();
        assert(!f.contains_key(last.0@)) by {
            if f.contains_key(last.0@) {
                let i = choose|i: int| 0 <= i < front.len() && (#[trigger] front[i]).0@ == last.0@;
                assert(entries[i] == front[i]);
                assert(entries[entries.len() - 1] == last);
            }
        }
        assert(m == f.insert(last.0@, last.1));
        if last.1.token is Some {
            assert(logged_in_names(m) =~= logged_in_names(f).insert(last.0@));
        } else {
            assert(logged_in_names(m) =~= logged_in_names(f));
        }
    } else {
        assert(logged_in_names(m) =~= Set::<Seq<char>>::empty());
    }
}

/// Saved accounts by name.
#[derive(Debug, PartialEq, Eq)]
pub struct AccountMap {
    entries: Vec<(String, Account)>,
}

impl AccountMap {
    #[verifier::type_invariant]
    spec fn names_ascending(self) -> bool {
        sorted_names(self.entries@)
    }

    /// The accounts by name.
    pub closed spec fn view(&self) -> Map<Seq<char>, Account> {
        entries_map(self.entries@)
    }

    /// No accounts.
    pub fn new() -> (m: Self)
        ensures
            m@ == Map::<Seq<char>, Account>::empty(),
    {
        AccountMap { entries: Vec::new() }
    }

    /// The number of accounts.
    pub fn len(&self) -> (n: usize)
        ensures
            n == self@.len(),
            self@.dom().finite(),
    {
        proof {
            use_type_invariant(self);
            lemma_sorted_distinct(self.entries@);
            lemma_entries_map(self.entries@);
        }
        self.entries.len()
    }

    fn position(&self, name: &str) -> (r: Option<usize>)
        ensures
            match r {
                Some(i) => i < self.entries@.len() && self.entries@[i as int].0@ == name@,
                None => forall|k: int|
                    0 <= k < self.entries@.len() ==> (#[trigger] self.entries@[k]).0@ != name@,
            },
    {
        let mut i: usize = 0;
        while i < self.entries.len()
            invariant
                i <= self.entries@.len(),
                forall|k: int| 0 <= k < i ==> (#[trigger] self.entries@[k]).0@ != name@,
            decreases self.entries.len() - i,
        {
            if same_text(self.entries[i].0.as_str(), name) {
                return Some(i);
            }
            i = i + 1;
        }
        None
    }

    /// Whether an account of that name is saved.
    pub fn contains_key(&self, name: &str) -> (r: bool)
        ensures
            r == self@.contains_key(name@),
    {
        proof {
            use_type_invariant(self);
            lemma_sorted_distinct(self.entries@);
            lemma_entries_map(self.entries@);
        }
        let r = self.position(name);
        proof {
            if let Some(i) = r {
                assert(self.entries@[i as int].0@ == name@);
            }
        }
        r.is_some()
    }

    /// The saved name and account for `name`, as `BTreeMap::get_key_value` gives them.
    pub fn get_key_value(&self, name: &str) -> (r: Option<(&String, &Account)>)
        ensures
            match r {
                Some((n, a)) => self@.contains_key(name@) && n@ == name@ && *a == self@[name@],
                None => !self@.contains_key(name@),
            },
    {
        proof {
            use_type_invariant(self);
            lemma_sorted_distinct(self.entries@);
            lemma_entries_map(self.entries@);
        }
        match self.position(name) {
            Some(i) => {
                let e = &self.entries[i];
                Some((&e.0, &e.1))
            },
            None => None,
        }
    }

    /// The account saved under `name`.
    pub fn get(&self, name: &str) -> (r: Option<&Account>)
        ensures
            match r {
                Some(a) => self@.contains_key(name@) && *a == self@[name@],
                None => !self@.contains_key(name@),
            },
    {
        match self.get_key_value(name) {
            Some((_, a)) => Some(a),
            None => None,
        }
    }

    /// The only saved account, where exactly one is saved.
    fn sole(&self) -> (r: Option<(&String, &Account)>)
        ensures
            match r {
                Some((n, a)) => self@.len() == 1 && self@.dom() == set![n@] && self@[n@] == *a,
                None => self@.len() != 1,
            },
    {
        proof {
            use_type_invariant(self);
            lemma_sorted_distinct(self.entries@);
            lemma_entries_map(self.entries@);
        }
        if self.entries.len() == 1 {
            let e = &self.entries[0];
            proof {
                assert(self@.dom() =~= set![e.0@]) by {
                    assert forall|k: Seq<char>| self@.dom().contains(k) implies k == e.0@ by {
                        let i = choose|i: int| 0 <= i < self.entries@.len() && (#[trigger] self.entries@[i]).0@ == k;
                    }
                    assert(self.entries@[0].0@ == e.0@);
                }
            }
            Some((&e.0, &e.1))
        } else {
            None
        }
    }

    /// Saves `account` under `name`, and returns the account it replaces.
    pub fn insert(&mut self, name: String, account: Account) -> (r: Option<Account>)
        ensures
            final(self)@ == old(self)@.insert(name@, account),
            match r {
                Some(a) => old(self)@.contains_key(name@) && a == old(self)@[name@],
                None => !old(self)@.contains_key(name@),
            },
    {
        proof {
            use_type_invariant(&*self);
            lemma_sorted_distinct(self.entries@);
            lemma_entries_map(self.entries@);
        }
        let ghost before = self.entries@;
        match self.position(name.as_str()) {
            Some(i) => {
                let mut entries: Vec<(String, Account)> = Vec::new();
                std::mem::swap(&mut entries, &mut self.entries);
                let (_, previous) = entries.remove(i);
                entries.insert(i, (name, account));
                proof {
                    assert(entries@ =~= before.update(i as int, (name, account)));
                    assert(sorted_names(entries@)) by {
                        assert forall|x: int, y: int| 0 <= x < y < entries@.len() implies text_less(
                            (#[trigger] entries@[x]).0@,
                            (#[trigger] entries@[y]).0@,
                        ) by {
                            assert(entries@[x].0@ == before[x].0@ && entries@[y].0@ == before[y].0@);
                        }
                    }
                    lemma_sorted_distinct(entries@);
                    lemma_entries_map(entries@);
                    assert(entries_map(entries@) =~= entries_map(before).insert(name@, account)) by {
                        assert forall|k: Seq<char>| #[trigger] entries_map(entries@).contains_key(k)
                            <==> entries_map(before).insert(name@, account).contains_key(k) by {
                            if entries_map(entries@).contains_key(k) {
                                let j = choose|j: int| 0 <= j < entries@.len() && (#[trigger] entries@[j]).0@ == k;
                                if j != i {
                                    assert(before[j].0@ == k);
                                }
                            }
                            if entries_map(before).contains_key(k) {
                                let j = choose|j: int| 0 <= j < before.len() && (#[trigger] before[j]).0@ == k;
                                if j != i {
                                    assert(entries@[j].0@ == k);
                                } else {
                                    assert(entries@[j].0@ == k);
                                }
                            }
                            if k == name@ {
                                assert(entries@[i as int].0@ == k);
                            }
                        }
                        assert forall|k: Seq<char>| #[trigger] entries_map(entries@).contains_key(k) implies
                            entries_map(entries@)[k] == entries_map(before).insert(name@, account)[k] by {
                            let j = choose|j: int| 0 <= j < entries@.len() && (#[trigger] entries@[j]).0@ == k;
                            if j != i {
                                assert(before[j] == entries@[j]);
                            }
                        }
                    }
                }
                self.entries = entries;
                Some(previous)
            },
            None => {
                let mut p: usize = 0;
                while p < self.entries.len() && text_before(self.entries[p].0.as_str(), name.as_str())
                    invariant
                        p <= self.entries@.len(),
                        self.entries@ == before,
                        forall|k: int| 0 <= k < p ==> text_less((#[trigger] before[k]).0@, name@),
                    decreases self.entries.len() - p,
                {
                    p = p + 1;
                }
                let mut entries: Vec<(String, Account)> = Vec::new();
                std::mem::swap(&mut entries, &mut self.entries);
                entries.insert(p, (name, account));
                proof {
                    let e = (name, account);
                    assert(entries@ =~= before.insert(p as int, e));
                    if p < before.len() {
                        lemma_text_less_total(before[p as int].0@, name@);
                        assert(before[p as int].0@ != name@);
                    }
                    assert(sorted_names(entries@)) by {
                        assert forall|x: int, y: int| 0 <= x < y < entries@.len() implies text_less(
                            (#[trigger] entries@[x]).0@,
                            (#[trigger] entries@[y]).0@,
                        ) by {
                            if y < p {
                                assert(entries@[x] == before[x] && entries@[y] == before[y]);
                            } else if y == p {
                                assert(entries@[x] == before[x]);
                            } else if x == p {
                                assert(entries@[y] == before[y - 1]);
                                if y - 1 > p {
                                    lemma_text_less_transitive(name@, before[p as int].0@, before[y - 1].0@);
                                }
                            } else if x < p {
                                assert(entries@[x] == before[x] && entries@[y] == before[y - 1]);
                            } else {
                                assert(entries@[x] == before[x - 1] && entries@[y] == before[y - 1]);
                            }
                        }
                    }
                    lemma_sorted_distinct(entries@);
                    lemma_entries_map(entries@);
                    assert(entries_map(entries@) =~= entries_map(before).insert(name@, account)) by {
                        assert forall|k: Seq<char>| #[trigger] entries_map(entries@).contains_key(k)
                            <==> entries_map(before).insert(name@, account).contains_key(k) by {
                            if entries_map(entries@).contains_key(k) {
                                let j = choose|j: int| 0 <= j < entries@.len() && (#[trigger] entries@[j]).0@ == k;
                                if j < p {
                                    assert(before[j] == entries@[j]);
                                } else if j > p {
                                    assert(before[j - 1] == entries@[j]);
                                }
                            }
                            if entries_map(before).contains_key(k) {
                                let j = choose|j: int| 0 <= j < before.len() && (#[trigger] before[j]).0@ == k;
                                if j < p {
                                    assert(entries@[j] == before[j]);
                                } else {
                                    assert(entries@[j + 1] == before[j]);
                                }
                            }
                            if k == name@ {
                                assert(entries@[p as int].0@ == k);
                            }
                        }
                        assert forall|k: Seq<char>| #[trigger] entries_map(entries@).contains_key(k) implies
                            entries_map(entries@)[k] == entries_map(before).insert(name@, account)[k] by {
                            let j = choose|j: int| 0 <= j < entries@.len() && (#[trigger] entries@[j]).0@ == k;
                            if j < p {
                                assert(before[j] == entries@[j]);
                            } else if j > p {
                                assert(before[j - 1] == entries@[j]);
                            }
                        }
                    }
                }
                self.entries = entries;
                None
            },
        }
    }

    /// Removes the account saved under `name` and returns it.
    pub fn remove(&mut self, name: &str) -> (r: Option<Account>)
        ensures
            final(self)@ == old(self)@.remove(name@),
            match r {
                Some(a) => old(self)@.contains_key(name@) && a == old(self)@[name@],
                None => !old(self)@.contains_key(name@),
            },
    {
        proof {
            use_type_invariant(&*self);
            lemma_sorted_distinct(self.entries@);
            lemma_entries_map(self.entries@);
        }
        let ghost before = self.entries@;
        match self.position(name) {
            Some(i) => {
                let mut entries: Vec<(String, Account)> = Vec::new();
                std::mem::swap(&mut entries, &mut self.entries);
                let (_, previous) = entries.remove(i);
                proof {
                    assert(entries@ =~= before.remove(i as int));
                    assert(distinct_names(entries@)) by {
                        assert forall|a: int, b: int| 0 <= a < b < entries@.len() implies (#[trigger] entries@[a]).0@
                            != (#[trigger] entries@[b]).0@ by {
                            let a0 = if a < i { a } else { a + 1 };
                            let b0 = if b < i { b } else { b + 1 };
                            assert(entries@[a] == before[a0]);
                            assert(entries@[b] == before[b0]);
                            assert(before[a0].0@ != before[b0].0@);
                        }
                    }
                    lemma_entries_map(entries@);
                    assert(entries_map(entries@) =~= entries_map(before).remove(name@)) by {
                        assert forall|k: Seq<char>| #[trigger] entries_map(entries@).contains_key(k)
                            <==> entries_map(before).remove(name@).contains_key(k) by {
                            if entries_map(entries@).contains_key(k) {
                                let j = choose|j: int| 0 <= j < entries@.len() && (#[trigger] entries@[j]).0@ == k;
                                let j0 = if j < i { j } else { j + 1 };
                                assert(entries@[j] == before[j0]);
                                assert(before[j0].0@ != before[i as int].0@);
                            }
                            if entries_map(before).remove(name@).contains_key(k) {
                                let j = choose|j: int| 0 <= j < before.len() && (#[trigger] before[j]).0@ == k;
                                if j < i {
                                    assert(entries@[j] == before[j]);
                                } else {
                                    assert(j != i);
                                    assert(entries@[j - 1] == before[j]);
                                }
                            }
                        }
                        assert forall|k: Seq<char>| #[trigger] entries_map(entries@).contains_key(k) implies
                            entries_map(entries@)[k] == entries_map(before).remove(name@)[k] by {
                            let j = choose|j: int| 0 <= j < entries@.len() && (#[trigger] entries@[j]).0@ == k;
                            let j0 = if j < i { j } else { j + 1 };
                            assert(entries@[j] == before[j0]);
                        }
                    }
                }
                self.entries = entries;
                Some(previous)
            },
            None => {
                proof {
                    assert(entries_map(before) =~= entries_map(before).remove(name@));
                }
                None
            },
        }
    }

    /// How many saved accounts hold a token.
    pub fn logged_in_count(&self) -> (n: usize)
        ensures
            n == logged_in_names(self@).len(),
    {
        proof {
            use_type_invariant(self);
            lemma_sorted_distinct(self.entries@);
            lemma_logged_in_count(self.entries@);
        }
        let mut n: usize = 0;
        let mut i: usize = 0;
        while i < self.entries.len()
            invariant
                i <= self.entries@.len(),
                n == count_logged_in(self.entries@.take(i as int)),
                n <= i,
            decreases self.entries.len() - i,
        {
            assert(self.entries@.take(i + 1).drop_last() =~= self.entries@.take(i as int));
            if self.entries[i].1.token.is_some() {
                n = n + 1;
            }
            i = i + 1;
        }
        assert(self.entries@.take(i as int) =~= self.entries@);
        n
    }

    /// The saved names in ascending order, as a `BTreeMap` iterates its keys.
    pub fn names(&self) -> (r: Vec<String>)
        ensures
            ascending(strings_view(r@)),
            lists_keys(strings_view(r@), self@),
    {
        proof {
            use_type_invariant(self);
            lemma_sorted_distinct(self.entries@);
            lemma_entries_map(self.entries@);
        }
        let mut out: Vec<String> = Vec::new();
        let mut i: usize = 0;
        while i < self.entries.len()
            invariant
                i <= self.entries@.len(),
                out@.len() == i,
                forall|k: int| 0 <= k < i ==> (#[trigger] out@[k])@ == self.entries@[k].0@,
            decreases self.entries.len() - i,
        {
            out.push(self.entries[i].0.clone());
            i = i + 1;
        }
        proof {
            let nv = strings_view(out@);
            assert forall|a: int, b: int| 0 <= a < b < nv.len() implies text_less(
                #[trigger] nv[a],
                #[trigger] nv[b],
            ) by {
                assert(nv[a] == self.entries@[a].0@ && nv[b] == self.entries@[b].0@);
            }
            assert forall|a: int| 0 <= a < nv.len() implies self@.contains_key(#[trigger] nv[a]) by {
                assert(self.entries@[a].0@ == nv[a]);
            }
            assert forall|k: Seq<char>| #[trigger] self@.contains_key(k) implies exists|a: int|
                0 <= a < nv.len() && nv[a] == k by {
                let j = choose|j: int| 0 <= j < self.entries@.len() && (#[trigger] self.entries@[j]).0@ == k;
                assert(nv[j] == k);
            }
        }
        out
    }
}

impl Clone for AccountMap {
    /// A copy with the same accounts under the same names.
    fn clone(&self) -> (r: Self)
        ensures
            r@ == self@,
    {
        proof {
            use_type_invariant(self);
            lemma_sorted_distinct(self.entries@);
        }
        let mut entries: Vec<(String, Account)> = Vec::new();
        let mut i: usize = 0;
        while i < self.entries.len()
            invariant
                i <= self.entries@.len(),
                entries@.len() == i,
                distinct_names(self.entries@),
                forall|k: int| 0 <= k < i ==> (#[trigger] entries@[k]) == self.entries@[k],
            decreases self.entries.len() - i,
        {
            entries.push((self.entries[i].0.clone(), self.entries[i].1.copy()));
            i = i + 1;
        }
        assert(entries@ =~= self.entries@);
        AccountMap { entries }
    }
}

/// Saved profiles and the name of the active one.
#[derive(Debug, Clone, PartialEq, Eq)]
pub struct Config {
    pub active_account: Option<String>,
    pub accounts: AccountMap,
}

impl Config {
    /// No active account and no saved accounts.
    pub fn new() -> (c: Self)
        ensures
            c.active_account is None,
            c.accounts@ == Map::<Seq<char>, Account>::empty(),
    {
        Config { active_account: None, accounts: AccountMap::new() }
    }
}

impl Default for Config {
    fn default() -> (c: Self)
        ensures
            c.active_account is None,
            c.accounts@ == Map::<Seq<char>, Account>::empty(),
    {
        Config::new()
    }
}

/// The name of the account to use: the active account where it is saved, else
/// the only saved account where there is exactly one.
pub open spec fn active_name(active: Option<Seq<char>>, accounts: Map<Seq<char>, Account>) -> Option<Seq<char>> {
    if active is Some && accounts.contains_key(active->0) {
        active
    } else if accounts.len() == 1 {
        Some(accounts.dom().choose())
    } else {
        None
    }
}

/// The account to use where none is named: the active account where it is
/// saved, else the only saved account where there is exactly one.
pub fn active_account(config: &Config) -> (r: Option<(&str, &Account)>)
    ensures
        match r {
            Some((name, account)) => active_name(opt_str(config.active_account), config.accounts@)
                == Some(name@) && *account == config.accounts@[name@],
            None => active_name(opt_str(config.active_account), config.accounts@) is None,
        },
{
    if let Some(name) = &config.active_account {
        if let Some((n, a)) = config.accounts.get_key_value(name.as_str()) {
            return Some((n.as_str(), a));
        }
    }
    match config.accounts.sole() {
        Some((n, a)) => {
            proof {
                let d = config.accounts@.dom();
                assert(d.contains(d.choose()));
                assert(set![n@].contains(d.choose()));
            }
            Some((n.as_str(), a))
        },
        None => None,
    }
}

/// Why no account could be chosen.
#[derive(Debug, Clone, PartialEq, Eq)]
pub enum AccountError {
    /// No account is saved under the name asked for.
    NoStoredAccount(String),
    /// No name was given, and no active or only account exists.
    NoSavedAccount,
}

impl AccountError {
    /// The message that explains the error.
    pub fn message(&self) -> (s: String)
        ensures
            s@ == match self {
                AccountError::NoStoredAccount(name) => "no stored account named "@ + name@,
                AccountError::NoSavedAccount => "no saved account; run the product login command"@,
            },
    {
        match self {
            AccountError::NoStoredAccount(name) => {
                let mut s = String::new();
                s.append("no stored account named ");
                s.append(name.as_str());
                s
            },
            AccountError::NoSavedAccount => "no saved account; run the product login command".to_owned(),
        }
    }
}

/// The account named `name`, or where no name is given the active account.
pub fn select_account<'a>(config: &'a Config, name: Option<&str>) -> (r: Result<(&'a str, &'a Account), AccountError>)
    ensures
        match name {
            Some(n) => match r {
                Ok((found, account)) => config.accounts@.contains_key(n@) && found@ == n@ && *account
                    == config.accounts@[n@],
                Err(e) => !config.accounts@.contains_key(n@) && e == AccountError::NoStoredAccount(
                    e->NoStoredAccount_0,
                ) && e->NoStoredAccount_0@ == n@,
            },
            None => match r {
                Ok((found, account)) => active_name(opt_str(config.active_account), config.accounts@)
                    == Some(found@) && *account == config.accounts@[found@],
                Err(e) => active_name(opt_str(config.active_account), config.accounts@) is None && e
                    == AccountError::NoSavedAccount,
            },
        },
{
    match name {
        Some(n) => match config.accounts.get_key_value(n) {
            Some((found, account)) => Ok((found.as_str(), account)),
            None => Err(AccountError::NoStoredAccount(n.to_owned())),
        },
        None => match active_account(config) {
            Some(pair) => Ok(pair),
            None => Err(AccountError::NoSavedAccount),
        },
    }
}

} // verus!
