//! A small set of strings, backed by a vector without duplicates.
//!
//! Both the model of the OS listener's registration table and the recording
//! coordinator's session table are sets of strings: registered key
//! combinations in the one, active session tokens in the other. The view of
//! a [`StrSet`] is the mathematical set of the character sequences it holds.

use vstd::prelude::*;

verus! {

pub struct StrSet {
    items: Vec<String>,
}

impl View for StrSet {
    type V = Set<Seq<char>>;

    closed spec fn view(&self) -> Set<Seq<char>> {
        self.items.deep_view().to_set()
    }
}

impl StrSet {
    /// No two entries read the same: each member is stored exactly once.
    pub closed spec fn wf(&self) -> bool {
        forall|i: int, j: int|
            0 <= i < self.items@.len() && 0 <= j < self.items@.len() && i != j
                ==> self.items@[i]@ != self.items@[j]@
    }

    pub fn new() -> (r: StrSet)
        ensures
            r.wf(),
            r@ == Set::<Seq<char>>::empty(),
    {
        let r = StrSet { items: Vec::new() };
        proof {
            assert(r@ =~= Set::<Seq<char>>::empty());
        }
        r
    }

    pub fn contains(&self, x: &String) -> (r: bool)
        ensures
            r == self@.contains(x@),
    {
        let n: usize = self.items.len();
        let mut i: usize = 0;
        while i < n
            invariant
                n == self.items@.len(),
                0 <= i <= n,
                forall|j: int| 0 <= j < i ==> self.items@[j]@ != x@,
            decreases n - i,
        {
            if self.items[i] == *x {
                proof {
                    assert(self.items.deep_view()[i as int] == x@);
                    assert(self.items.deep_view().contains(x@));
                }
                return true;
            }
            i += 1;
        }
        proof {
            assert(forall|j: int|
                0 <= j < self.items.deep_view().len() ==> self.items.deep_view()[j] != x@);
            assert(!self.items.deep_view().contains(x@));
        }
        false
    }

    /// Adds `x` unless it is already a member; reports whether it was added.
    pub fn insert(&mut self, x: String) -> (r: bool)
        requires
            old(self).wf(),
        ensures
            final(self).wf(),
            r == !old(self)@.contains(x@),
            final(self)@ == old(self)@.insert(x@),
    {
        if self.contains(&x) {
            proof {
                assert(self@ =~= self@.insert(x@));
            }
            return false;
        }
        let ghost pre = self.items.deep_view();
        proof {
            assert(!pre.contains(x@));
            assert(forall|j: int| 0 <= j < pre.len() ==> pre[j] != x@);
        }
        self.items.push(x);
        proof {
            assert(self.items.deep_view() =~= pre.push(x@));
            assert forall|p: int, q: int|
                0 <= p < self.items@.len() && 0 <= q < self.items@.len() && p != q
                    implies self.items@[p]@ != self.items@[q]@ by {
                assert(self.items@[p]@ == pre.push(x@)[p]);
                assert(self.items@[q]@ == pre.push(x@)[q]);
                assert(old(self).items@[p]@ == pre[p] || p == pre.len());
                assert(old(self).items@[q]@ == pre[q] || q == pre.len());
            }
            assert(self.items.deep_view().to_set() =~= pre.to_set().insert(x@)) by {
                assert(forall|a: Seq<char>|
                    pre.push(x@).contains(a) <==> pre.contains(a) || a == x@) by {
                    assert(forall|a: Seq<char>| #[trigger] pre.contains(a)
                        ==> pre.push(x@).contains(a)) by {
                        assert(forall|a: Seq<char>| pre.contains(a) ==> {
                            let k = choose|k: int| 0 <= k < pre.len() && pre[k] == a;
                            pre.push(x@)[k] == a && #[trigger] pre.push(x@).contains(a)
                        });
                    }
                    assert(pre.push(x@)[pre.len() as int] == x@);
                    assert(pre.push(x@).contains(x@));
                }
            }
        }
        true
    }

    /// Removes `x` if it is a member; reports whether it was there.
    pub fn remove(&mut self, x: &String) -> (r: bool)
        requires
            old(self).wf(),
        ensures
            final(self).wf(),
            r == old(self)@.contains(x@),
            final(self)@ == old(self)@.remove(x@),
    {
        let n: usize = self.items.len();
        let mut i: usize = 0;
        while i < n
            invariant
                n == self.items@.len(),
                0 <= i <= n,
                self.wf(),
                self.items@ == old(self).items@,
                forall|j: int| 0 <= j < i ==> self.items@[j]@ != x@,
            decreases n - i,
        {
            if self.items[i] == *x {
                let ghost pre = self.items.deep_view();
                let ghost pi = i as int;
                proof {
                    assert(pre[pi] == x@);
                    assert(old(self)@.contains(x@));
                }
                self.items.remove(i);
                proof {
                    assert(self.items.deep_view() =~= pre.remove(pi));
                    lemma_remove_unique(pre, pi);
                    assert(self@ =~= old(self)@.remove(x@));
                    assert(forall|p: int, q: int|
                        0 <= p < self.items@.len() && 0 <= q < self.items@.len() && p != q
                            ==> self.items.deep_view()[p] != self.items.deep_view()[q]);
                }
                return true;
            }
            i += 1;
        }
        proof {
            assert(forall|j: int|
                0 <= j < self.items.deep_view().len() ==> self.items.deep_view()[j] != x@);
            assert(!self.items.deep_view().contains(x@));
            assert(self@ =~= self@.remove(x@));
        }
        false
    }
}

/// Removing the one index that holds `s[i]` from a duplicate-free sequence
/// removes exactly that member from the induced set.
proof fn lemma_remove_unique(s: Seq<Seq<char>>, i: int)
    requires
        0 <= i < s.len(),
        forall|p: int, q: int|
            0 <= p < s.len() && 0 <= q < s.len() && p != q ==> s[p] != s[q],
    ensures
        forall|p: int, q: int|
            0 <= p < s.remove(i).len() && 0 <= q < s.remove(i).len() && p != q
                ==> s.remove(i)[p] != s.remove(i)[q],
        s.remove(i).to_set() =~= s.to_set().remove(s[i]),
{
    let t = s.remove(i);
    assert(forall|p: int| 0 <= p < t.len()
        ==> t[p] == (if p < i { s[p] } else { s[p + 1] }));
    assert forall|a: Seq<char>| t.contains(a) implies s.to_set().remove(s[i]).contains(a) by {
        let p = choose|p: int| 0 <= p < t.len() && t[p] == a;
        if p < i {
            assert(s[p] == a);
            assert(s.contains(a));
            assert(a != s[i]);
        } else {
            assert(s[p + 1] == a);
            assert(s.contains(a));
            assert(a != s[i]);
        }
    }
    assert forall|a: Seq<char>| s.to_set().remove(s[i]).contains(a) implies t.contains(a) by {
        let p = choose|p: int| 0 <= p < s.len() && s[p] == a;
        assert(p != i);
        if p < i {
            assert(t[p] == a);
        } else {
            assert(t[p - 1] == a);
        }
    }
}

} // verus!
