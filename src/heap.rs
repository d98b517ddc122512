//! A binary min-heap over a vector, ordered by an integer priority.
use vstd::multiset::Multiset;
use vstd::prelude::*;

verus! {

broadcast use vstd::seq_lib::group_to_multiset_ensures;

/// Something a [`Heap`] can order: the smallest priority leaves first.
pub trait Prioritized {
    spec fn spec_priority(&self) -> u64;

    fn priority(&self) -> (p: u64)
        ensures
            p == self.spec_priority(),
    ;
}

impl Prioritized for usize {
    open spec fn spec_priority(&self) -> u64 {
        *self as u64
    }

    fn priority(&self) -> (p: u64) {
        *self as u64
    }
}

/// Relies on `<[T]>::swap`: the two elements trade places and nothing else changes.
pub assume_specification<Elem>[ <[Elem]>::swap ](s: &mut [Elem], a: usize, b: usize)
    requires
        a < old(s)@.len(),
        b < old(s)@.len(),
    ensures
        final(s)@ == old(s)@.update(a as int, old(s)@[b as int]).update(b as int, old(s)@[a as int]),
;

/// The largest number of elements a heap holds, so that child indices fit in `usize`.
pub const MAX_HEAP_LEN: usize = 0x3fff_ffff;

pub open spec fn parent_of(i: int) -> int {
    (i - 1) / 2
}

/// The element at `k` is not smaller than its parent.
pub open spec fn ordered_at<T: Prioritized>(s: Seq<T>, k: int) -> bool {
    s[parent_of(k)].spec_priority() <= s[k].spec_priority()
}

/// Every element is at least as large as its parent.
pub open spec fn is_heap<T: Prioritized>(s: Seq<T>) -> bool {
    forall|k: int| 0 < k < s.len() ==> #[trigger] ordered_at(s, k)
}

/// The heap order holds everywhere but between `i` and its parent, and
/// the parent of `i` is no larger than the children of `i`.
pub open spec fn heap_but_up<T: Prioritized>(s: Seq<T>, i: int) -> bool {
    &&& forall|k: int| 0 < k < s.len() && k != i ==> #[trigger] ordered_at(s, k)
    &&& i > 0 ==> forall|k: int|
        0 < k < s.len() && parent_of(k) == i ==> s[parent_of(i)].spec_priority()
            <= #[trigger] s[k].spec_priority()
}

/// The heap order holds everywhere but between `i` and its children, and
/// the parent of `i` is no larger than the children of `i`.
pub open spec fn heap_but_down<T: Prioritized>(s: Seq<T>, i: int) -> bool {
    &&& forall|k: int| 0 < k < s.len() && parent_of(k) != i ==> #[trigger] ordered_at(s, k)
    &&& i > 0 ==> forall|k: int|
        0 < k < s.len() && parent_of(k) == i ==> s[parent_of(i)].spec_priority()
            <= #[trigger] s[k].spec_priority()
}

pub open spec fn swapped<T>(s: Seq<T>, a: int, b: int) -> Seq<T> {
    s.update(a, s[b]).update(b, s[a])
}

proof fn lemma_swapped_multiset<T>(s: Seq<T>, a: int, b: int)
    requires
        0 <= a < s.len(),
        0 <= b < s.len(),
    ensures
        swapped(s, a, b).to_multiset() =~= s.to_multiset(),
{
    broadcast use vstd::multiset::group_multiset_axioms;

    let s1 = s.update(a, s[b]);
    assert(s1.to_multiset() == s.to_multiset().insert(s[b]).remove(s[a]));
    assert(swapped(s, a, b).to_multiset() == s1.to_multiset().insert(s[a]).remove(s1[b]));
    if a == b {
        assert(swapped(s, a, b) =~= s);
    } else {
        assert(s1[b] == s[b]);
    }
}

/// In a heap the first element is no larger than any other.
pub proof fn lemma_heap_root_is_min<T: Prioritized>(s: Seq<T>, k: int)
    requires
        is_heap(s),
        0 <= k < s.len(),
    ensures
        s[0].spec_priority() <= s[k].spec_priority(),
    decreases k,
{
    if k > 0 {
        assert(ordered_at(s, k));
        lemma_heap_root_is_min(s, parent_of(k));
    }
}

/// Index of the parent of `i`, or `None` at the root.
pub fn parent_index(i: usize) -> (r: Option<usize>)
    ensures
        i == 0 ==> r.is_none(),
        i > 0 ==> r == Some(((i - 1) / 2) as usize),
{
    if i == 0 {
        None
    } else {
        Some((i - 1) / 2)
    }
}

/// Index of the left child of `i`.
pub fn left_child_index(i: usize) -> (r: usize)
    requires
        i <= MAX_HEAP_LEN,
    ensures
        r == 2 * i + 1,
{
    (i + 1) * 2 - 1
}

/// Index of the right child of `i`.
pub fn right_child_index(i: usize) -> (r: usize)
    requires
        i <= MAX_HEAP_LEN,
    ensures
        r == 2 * i + 2,
{
    (i + 1) * 2
}

/// A min-heap: `pop` hands out an element of smallest priority.
pub struct Heap<T> {
    data: Vec<T>,
}

impl<T: Prioritized> Heap<T> {
    /// The elements in storage order.
    pub closed spec fn view(&self) -> Seq<T> {
        self.data@
    }

    pub closed spec fn wf(&self) -> bool {
        &&& is_heap(self.data@)
        &&& self.data@.len() <= MAX_HEAP_LEN
    }

    /// The elements, without order.
    pub open spec fn items(&self) -> Multiset<T> {
        self.view().to_multiset()
    }

    /// Create a new empty heap.
    pub fn new() -> (h: Heap<T>)
        ensures
            h.wf(),
            h.view().len() == 0,
            h.items() =~= Multiset::empty(),
    {
        Heap { data: Vec::new() }
    }

    pub fn len(&self) -> (n: usize)
        ensures
            n == self.view().len(),
    {
        self.data.len()
    }

    /// Remove an element of smallest priority and return it, or `None` if the heap is empty.
    pub fn pop(&mut self) -> (r: Option<T>)
        requires
            old(self).wf(),
        ensures
            final(self).wf(),
            old(self).view().len() == 0 <==> r.is_none(),
            r.is_none() ==> final(self).view() == old(self).view(),
            r.is_some() ==> {
                &&& old(self).items() == final(self).items().insert(r.unwrap())
                &&& final(self).view().len() == old(self).view().len() - 1
                &&& forall|x: T| #[trigger]
                    old(self).items().contains(x) ==> r.unwrap().spec_priority()
                        <= x.spec_priority()
            },
    {
        if self.data.len() == 0 {
            None
        } else {
            proof {
                broadcast use vstd::multiset::group_multiset_axioms;

                let s = self.data@;
                assert forall|x: T| #[trigger] s.to_multiset().contains(x) implies s[0].spec_priority()
                    <= x.spec_priority() by {
                    let k = choose|k: int| 0 <= k < s.len() && s[k] == x;
                    lemma_heap_root_is_min(s, k);
                }
            }
            let ghost s0 = self.data@;
            let i = self.data.len() - 1;
            self.data.as_mut_slice().swap(0, i);
            proof {
                lemma_swapped_multiset(s0, 0, i as int);
            }
            let ghost s1 = self.data@;
            let result = self.data.pop().unwrap();
            proof {
                assert(s1 =~= self.data@.push(result));
                assert(heap_but_down(self.data@, 0)) by {
                    assert forall|k: int|
                        0 < k < self.data@.len() && parent_of(k) != 0 implies #[trigger] ordered_at(
                        self.data@,
                        k,
                    ) by {
                        assert(ordered_at(s0, k));
                    }
                }
            }
            self.sift_down(0);
            Some(result)
        }
    }

    /// A reference to an element of smallest priority, or `None` if the heap is empty.
    pub fn peek(&self) -> (r: Option<&T>)
        requires
            self.wf(),
        ensures
            self.view().len() == 0 <==> r.is_none(),
            r.is_some() ==> {
                &&& self.items().contains(*r.unwrap())
                &&& forall|x: T| #[trigger]
                    self.items().contains(x) ==> r.unwrap().spec_priority() <= x.spec_priority()
            },
    {
        if self.data.len() == 0 {
            None
        } else {
            proof {
                let s = self.data@;
                assert(s.contains(s[0]));
                assert forall|x: T| #[trigger] s.to_multiset().contains(x) implies s[0].spec_priority()
                    <= x.spec_priority() by {
                    let k = choose|k: int| 0 <= k < s.len() && s[k] == x;
                    lemma_heap_root_is_min(s, k);
                }
            }
            Some(&self.data[0])
        }
    }

    /// Insert `value`.
    pub fn push(&mut self, value: T)
        requires
            old(self).wf(),
            old(self).view().len() < MAX_HEAP_LEN,
        ensures
            final(self).wf(),
            final(self).items() == old(self).items().insert(value),
            final(self).view().len() == old(self).view().len() + 1,
    {
        let ghost s0 = self.data@;
        self.data.push(value);
        let i = self.data.len() - 1;
        proof {
            assert(heap_but_up(self.data@, i as int)) by {
                assert forall|k: int| 0 < k < self.data@.len() && k != i implies #[trigger] ordered_at(
                    self.data@,
                    k,
                ) by {
                    assert(ordered_at(s0, k));
                }
            }
        }
        self.sift_up(i);
    }

    /// Insert every element of `values`.
    pub fn insert_vec(&mut self, values: Vec<T>)
        requires
            old(self).wf(),
            old(self).view().len() + values@.len() <= MAX_HEAP_LEN,
        ensures
            final(self).wf(),
            final(self).items() == old(self).items().add(values@.to_multiset()),
            final(self).view().len() == old(self).view().len() + values@.len(),
    {
        let ghost values_init = values@;
        let mut values = values;
        while values.len() > 0
            invariant
                self.wf(),
                self.view().len() + values@.len() <= MAX_HEAP_LEN,
                self.items().add(values@.to_multiset()) == old(self).items().add(
                    values_init.to_multiset(),
                ),
                self.view().len() + values@.len() == old(self).view().len() + values_init.len(),
            decreases values@.len(),
        {
            let ghost before = values@;
            let v = values.pop().unwrap();
            proof {
                broadcast use vstd::multiset::group_multiset_axioms;

                assert(before =~= values@.push(v));
            }
            self.push(v);
            proof {
                broadcast use vstd::multiset::group_multiset_axioms;

                assert(self.items().add(values@.to_multiset()) =~= old(self).items().add(
                    values_init.to_multiset(),
                ));
            }
        }
    }

    /// The element stored at `i`.
    pub fn get(&self, i: usize) -> (r: &T)
        requires
            i < self.view().len(),
        ensures
            *r == self.view()[i as int],
    {
        &self.data[i]
    }

    /// Put `v` in the place of the element at `i`, which has the same
    /// priority, and return that element.
    pub fn replace_at(&mut self, i: usize, v: T) -> (r: T)
        requires
            old(self).wf(),
            i < old(self).view().len(),
            v.spec_priority() == old(self).view()[i as int].spec_priority(),
        ensures
            final(self).wf(),
            r == old(self).view()[i as int],
            final(self).view() == old(self).view().update(i as int, v),
            final(self).items() == old(self).items().insert(v).remove(r),
    {
        let mut v = v;
        std::mem::swap(&mut self.data[i], &mut v);
        proof {
            assert(forall|k: int| 0 < k < self.data@.len() ==> #[trigger] ordered_at(self.data@, k)
                == ordered_at(old(self).data@, k));
        }
        v
    }

    fn sift_up(&mut self, i: usize)
        requires
            i < old(self).data@.len(),
            old(self).data@.len() <= MAX_HEAP_LEN,
            heap_but_up(old(self).data@, i as int),
        ensures
            final(self).wf(),
            final(self).data@.len() == old(self).data@.len(),
            final(self).items() == old(self).items(),
        decreases i,
    {
        match parent_index(i) {
            Some(parent) => {
                if self.data[i].priority() < self.data[parent].priority() {
                    let ghost s = self.data@;
                    self.data.as_mut_slice().swap(i, parent);
                    proof {
                        lemma_swapped_multiset(s, i as int, parent as int);
                        let t = self.data@;
                        assert(t == swapped(s, i as int, parent as int));
                        assert forall|k: int|
                            0 < k < t.len() && k != parent implies #[trigger] ordered_at(t, k) by {
                            assert(ordered_at(s, k) || k == i);
                            if parent_of(k) == i {
                                assert(ordered_at(s, k) || k == i);
                            }
                            if parent_of(k) == parent as int && k != i {
                                assert(ordered_at(s, k));
                            }
                        }
                        if parent > 0 {
                            assert(ordered_at(s, parent as int));
                            assert forall|k: int|
                                0 < k < t.len() && parent_of(k) == parent implies t[parent_of(
                                parent as int,
                            )].spec_priority() <= #[trigger] t[k].spec_priority() by {
                                if k != i {
                                    assert(ordered_at(s, k));
                                }
                            }
                        }
                    }
                    self.sift_up(parent);
                } else {
                    proof {
                        assert(ordered_at(self.data@, i as int));
                    }
                }
            },
            None => {},
        }
    }

    fn sift_down(&mut self, i: usize)
        requires
            i < old(self).data@.len() || i == 0,
            old(self).data@.len() <= MAX_HEAP_LEN,
            heap_but_down(old(self).data@, i as int),
        ensures
            final(self).wf(),
            final(self).data@.len() == old(self).data@.len(),
            final(self).items() == old(self).items(),
        decreases old(self).data@.len() - i,
    {
        let len = self.data.len();
        let l = left_child_index(i);
        let r = right_child_index(i);
        let ghost s = self.data@;

        let child = if l >= len && r >= len {
            proof {
                assert forall|k: int| 0 < k < s.len() implies #[trigger] ordered_at(s, k) by {
                    assert(parent_of(k) != i);
                }
            }
            return ;
        } else if l >= len {
            r
        } else if r >= len {
            l
        } else if self.data[l].priority() < self.data[r].priority() {
            l
        } else {
            r
        };

        if self.data[child].priority() < self.data[i].priority() {
            self.data.as_mut_slice().swap(child, i);
            proof {
                lemma_swapped_multiset(s, child as int, i as int);
                let t = self.data@;
                assert(t == swapped(s, child as int, i as int));
                assert forall|k: int|
                    0 < k < t.len() && parent_of(k) != child implies #[trigger] ordered_at(t, k) by {
                    if k == i {
                    } else if parent_of(k) == i {
                    } else {
                        assert(ordered_at(s, k));
                    }
                }
                assert forall|k: int|
                    0 < k < t.len() && parent_of(k) == child implies t[parent_of(
                    child as int,
                )].spec_priority() <= #[trigger] t[k].spec_priority() by {
                    assert(ordered_at(s, k));
                }
            }
            self.sift_down(child);
        } else {
            proof {
                assert forall|k: int| 0 < k < s.len() implies #[trigger] ordered_at(s, k) by {
                    if parent_of(k) == i {
                    }
                }
            }
        }
    }
}

} // verus!
