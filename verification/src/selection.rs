//! The selection set: the ids of the records the user has picked for
//! plotting. A set of ids, mutated only by toggling one id or clearing the
//! whole set; iteration order is kept stable so that the fetched series
//! aggregate in a stable order.

use vstd::prelude::*;

verus! {

/// No id occurs twice.
pub open spec fn no_dups(s: Seq<i32>) -> bool {
    forall|i: int, j: int| 0 <= i < j < s.len() ==> s[i] != s[j]
}

/// What toggling does to the selection: a selected id leaves (its first —
/// and under `no_dups` only — occurrence is removed), an unselected one is
/// appended.
pub open spec fn toggle_spec(s: Seq<i32>, id: i32) -> Seq<i32> {
    if s.contains(id) {
        s.remove_value(id)
    } else {
        s.push(id)
    }
}

/// The set of selected record ids, in the order they were first selected.
pub struct SelectionSet {
    ids: Vec<i32>,
}

impl View for SelectionSet {
    type V = Seq<i32>;

    closed spec fn view(&self) -> Seq<i32> {
        self.ids@
    }
}

impl SelectionSet {
    #[verifier::type_invariant]
    closed spec fn inv(self) -> bool {
        no_dups(self.ids@)
    }

    /// An empty selection.
    pub fn new() -> (r: SelectionSet)
        ensures
            r@ == Seq::<i32>::empty(),
    {
        SelectionSet { ids: Vec::new() }
    }

    /// How many ids are selected.
    pub fn len(&self) -> (r: usize)
        ensures
            r == self@.len(),
    {
        self.ids.len()
    }

    /// The id at position `i` of the selection order.
    pub fn get(&self, i: usize) -> (r: i32)
        requires
            i < self@.len(),
        ensures
            r == self@[i as int],
    {
        self.ids[i]
    }

    /// Is this id selected?
    pub fn contains(&self, id: i32) -> (r: bool)
        ensures
            r == self@.contains(id),
    {
        let n = self.ids.len();
        let mut i: usize = 0;
        while i < n
            invariant
                n == self.ids@.len(),
                i <= n,
                forall|j: int| 0 <= j < i ==> self.ids@[j] != id,
            decreases n - i,
        {
            if self.ids[i] == id {
                return true;
            }
            i += 1;
        }
        false
    }

    /// Toggles one id: removes it when selected, appends it when not.
    pub fn toggle(&mut self, id: i32)
        ensures
            final(self)@ == toggle_spec(old(self)@, id),
            no_dups(final(self)@),
    {
        proof {
            use_type_invariant(&*self);
        }
        let ghost s = self.ids@;
        let n = self.ids.len();
        let mut found: Option<usize> = None;
        let mut i: usize = 0;
        while i < n
            invariant
                n == s.len(),
                s == self.ids@,
                i <= n,
                found matches Some(k) ==> i == n && k < n && s[k as int] == id && forall|j: int|
                    0 <= j < k ==> s[j] != id,
                found is None ==> forall|j: int| 0 <= j < i ==> s[j] != id,
            decreases n + 1 - i,
        {
            if self.ids[i] == id {
                found = Some(i);
                i = n;
            } else {
                i += 1;
            }
        }
        let mut out: Vec<i32> = Vec::new();
        match found {
            Some(k) => {
                let mut j: usize = 0;
                while j < n
                    invariant
                        n == s.len(),
                        s == self.ids@,
                        k < n,
                        j <= n,
                        out@ == if j <= k {
                            s.take(j as int)
                        } else {
                            s.take(k as int) + s.subrange(k + 1, j as int)
                        },
                    decreases n - j,
                {
                    if j != k {
                        out.push(self.ids[j]);
                    }
                    proof {
                        if j + 1 <= k {
                            assert(out@ =~= s.take(j + 1));
                        } else {
                            assert(out@ =~= s.take(k as int) + s.subrange(k + 1, j + 1));
                        }
                    }
                    j += 1;
                }
                proof {
                    s.index_of_first_ensures(id);
                    if let Some(k0) = s.index_of_first(id) {
                        assert(k0 == k as int);
                    }
                    assert(out@ =~= s.remove(k as int));
                    no_dups_after_remove(s, k as int);
                    assert(s.contains(id));
                }
                self.ids = out;
            },
            None => {
                let mut j: usize = 0;
                while j < n
                    invariant
                        n == s.len(),
                        s == self.ids@,
                        j <= n,
                        out@ == s.take(j as int),
                    decreases n - j,
                {
                    out.push(self.ids[j]);
                    proof {
                        assert(out@ =~= s.take(j + 1));
                    }
                    j += 1;
                }
                out.push(id);
                proof {
                    assert(s.take(n as int) =~= s);
                    assert(!s.contains(id));
                    assert(out@ == s.push(id));
                    assert(no_dups(out@)) by {
                        assert forall|p: int, q: int|
                            0 <= p < q < out@.len() implies out@[p] != out@[q] by {
                            if q < s.len() {
                                assert(s[p] != s[q]);
                            } else if s[p] == id {
                                assert(s.contains(id));
                            }
                        }
                    }
                }
                self.ids = out;
            },
        }
    }

    /// Empties the selection.
    pub fn clear(&mut self)
        ensures
            final(self)@ == Seq::<i32>::empty(),
    {
        proof {
            use_type_invariant(&*self);
        }
        self.ids = Vec::new();
        proof {
            assert(self.ids@ =~= Seq::<i32>::empty());
        }
    }
}

proof fn no_dups_after_remove(s: Seq<i32>, i: int)
    requires
        no_dups(s),
        0 <= i < s.len(),
    ensures
        no_dups(s.remove(i)),
{
    s.remove_ensures(i);
}

/// Selection toggle idempotence: toggling the same id twice returns the
/// selection to its prior state as a set of ids — and, when the id was not
/// selected, to the very same sequence.
pub proof fn lemma_toggle_twice(s: Seq<i32>, id: i32)
    requires
        no_dups(s),
    ensures
        toggle_spec(toggle_spec(s, id), id).to_set() == s.to_set(),
        no_dups(toggle_spec(s, id)),
        !s.contains(id) ==> toggle_spec(toggle_spec(s, id), id) == s,
{
    s.index_of_first_ensures(id);
    if s.contains(id) {
        if let Some(i) = s.index_of_first(id) {
            let t1 = s.remove(i);
            s.remove_ensures(i);
            assert(toggle_spec(s, id) == t1);
            assert(!t1.contains(id)) by {
                if t1.contains(id) {
                    let j = choose|j: int| 0 <= j < t1.len() && t1[j] == id;
                    if j < i {
                        assert(s[j] == id);
                    } else {
                        assert(s[j + 1] == id && s[i] == id);
                    }
                }
            }
            no_dups_after_remove(s, i);
            let t2 = t1.push(id);
            assert(toggle_spec(t1, id) == t2);
            assert(t2.to_set() =~= s.to_set()) by {
                assert forall|x: i32| #[trigger] t2.to_set().contains(x) implies s.to_set().contains(
                    x,
                ) by {
                    if x == id {
                        assert(s[i] == x);
                    } else {
                        let j = choose|j: int| 0 <= j < t2.len() && t2[j] == x;
                        if j < i {
                            assert(s[j] == x);
                        } else if j < t1.len() {
                            assert(s[j + 1] == x);
                        }
                    }
                }
                assert forall|x: i32| #[trigger] s.to_set().contains(x) implies t2.to_set().contains(
                    x,
                ) by {
                    if x == id {
                        assert(t2[t2.len() - 1] == x);
                    } else {
                        let j = choose|j: int| 0 <= j < s.len() && s[j] == x;
                        if j < i {
                            assert(t2[j] == x);
                        } else {
                            assert(t2[j - 1] == x);
                        }
                    }
                }
            }
        }
    } else {
        let t1 = s.push(id);
        assert(toggle_spec(s, id) == t1);
        assert(no_dups(t1)) by {
            assert forall|p: int, q: int| 0 <= p < q < t1.len() implies t1[p] != t1[q] by {
                if q < s.len() {
                    assert(s[p] != s[q]);
                } else {
                    assert(!s.contains(id));
                    assert(t1[p] == s[p]);
                    if s[p] == id {
                        assert(s.contains(id));
                    }
                }
            }
        }
        assert(t1.contains(id)) by {
            assert(t1[t1.len() - 1] == id);
        }
        t1.index_of_first_ensures(id);
        if let Some(k) = t1.index_of_first(id) {
            assert(k == s.len() as int) by {
                if k < s.len() {
                    assert(s[k] == id);
                    assert(s.contains(id));
                }
            }
            assert(toggle_spec(t1, id) == t1.remove(k));
            assert(t1.remove(k) =~= s);
        }
    }
}

} // verus!
