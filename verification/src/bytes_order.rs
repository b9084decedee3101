//! Byte strings in lexicographic order: comparison, sorting, and a set of byte
//! strings kept as a sorted vector.

use vstd::prelude::*;

verus! {

/// Whether `a` comes before `b` in lexicographic order, or equals it.
pub open spec fn lex_le(a: Seq<u8>, b: Seq<u8>) -> bool
    decreases a.len(),
{
    if a.len() == 0 {
        true
    } else if b.len() == 0 {
        false
    } else if a[0] != b[0] {
        a[0] < b[0]
    } else {
        lex_le(a.drop_first(), b.drop_first())
    }
}

/// Whether the byte strings of `s` are in lexicographic order.
pub open spec fn lex_sorted(s: Seq<Seq<u8>>) -> bool {
    forall|i: int, j: int| 0 <= i <= j < s.len() ==> lex_le(#[trigger] s[i], #[trigger] s[j])
}

/// The contents of a vector of byte strings.
pub open spec fn contents(s: Seq<Vec<u8>>) -> Seq<Seq<u8>> {
    s.map_values(|bytes: Vec<u8>| bytes@)
}

/// Lexicographic order is reflexive.
pub proof fn lemma_lex_reflexive(a: Seq<u8>)
    ensures
        lex_le(a, a),
    decreases a.len(),
{
    if a.len() > 0 {
        lemma_lex_reflexive(a.drop_first());
    }
}

/// Any two byte strings are comparable in lexicographic order.
pub proof fn lemma_lex_total(a: Seq<u8>, b: Seq<u8>)
    ensures
        lex_le(a, b) || lex_le(b, a),
    decreases a.len(),
{
    if a.len() > 0 && b.len() > 0 {
        lemma_lex_total(a.drop_first(), b.drop_first());
    }
}

/// Two byte strings that come before each other in lexicographic order are
/// equal.
pub proof fn lemma_lex_antisymmetric(a: Seq<u8>, b: Seq<u8>)
    requires
        lex_le(a, b),
        lex_le(b, a),
    ensures
        a == b,
    decreases a.len(),
{
    if a.len() > 0 && b.len() > 0 {
        lemma_lex_antisymmetric(a.drop_first(), b.drop_first());
        assert(a =~= seq![a[0]] + a.drop_first());
        assert(b =~= seq![b[0]] + b.drop_first());
    } else {
        assert(a =~= b);
    }
}

/// Lexicographic order is transitive.
pub proof fn lemma_lex_transitive(a: Seq<u8>, b: Seq<u8>, c: Seq<u8>)
    requires
        lex_le(a, b),
        lex_le(b, c),
    ensures
        lex_le(a, c),
    decreases a.len(),
{
    if a.len() > 0 && b.len() > 0 && c.len() > 0 && a[0] == b[0] && b[0] == c[0] {
        lemma_lex_transitive(a.drop_first(), b.drop_first(), c.drop_first());
    }
}

/// Compares two byte strings in lexicographic order.
pub fn le(a: &[u8], b: &[u8]) -> (res: bool)
    ensures
        res == lex_le(a@, b@),
{
    let mut i: usize = 0;
    assert(a@.skip(0) =~= a@);
    assert(b@.skip(0) =~= b@);
    while i < a.len() && i < b.len()
        invariant
            i <= a@.len(),
            i <= b@.len(),
            lex_le(a@, b@) == lex_le(a@.skip(i as int), b@.skip(i as int)),
        decreases a@.len() - i,
    {
        assert(a@.skip(i as int).drop_first() =~= a@.skip(i + 1));
        assert(b@.skip(i as int).drop_first() =~= b@.skip(i + 1));
        if a[i] != b[i] {
            return a[i] < b[i];
        }
        i = i + 1;
    }
    i == a.len()
}

/// The first position at which `key` can be inserted after all of the byte
/// strings that come before it.
fn insertion_point(sorted: &Vec<Vec<u8>>, key: &[u8]) -> (at: usize)
    requires
        lex_sorted(contents(sorted@)),
    ensures
        at <= sorted@.len(),
        forall|i: int| 0 <= i < at ==> lex_le(#[trigger] contents(sorted@)[i], key@),
        forall|i: int| at <= i < sorted@.len() ==> !lex_le(#[trigger] contents(sorted@)[i], key@),
{
    let mut low: usize = 0;
    let mut high: usize = sorted.len();
    while low < high
        invariant
            low <= high <= sorted@.len(),
            lex_sorted(contents(sorted@)),
            forall|i: int| 0 <= i < low ==> lex_le(#[trigger] contents(sorted@)[i], key@),
            forall|i: int|
                high <= i < sorted@.len() ==> !lex_le(#[trigger] contents(sorted@)[i], key@),
        decreases high - low,
    {
        let mid: usize = low + (high - low) / 2;
        let before: bool = le(sorted[mid].as_slice(), key);
        assert(contents(sorted@)[mid as int] == sorted@[mid as int]@);
        if before {
            assert forall|i: int| 0 <= i < mid + 1 implies lex_le(
                #[trigger] contents(sorted@)[i],
                key@,
            ) by {
                lemma_lex_transitive(
                    contents(sorted@)[i],
                    contents(sorted@)[mid as int],
                    key@,
                );
            }
            low = mid + 1;
        } else {
            assert forall|i: int| mid <= i < sorted@.len() implies !lex_le(
                #[trigger] contents(sorted@)[i],
                key@,
            ) by {
                if lex_le(contents(sorted@)[i], key@) {
                    lemma_lex_transitive(
                        contents(sorted@)[mid as int],
                        contents(sorted@)[i],
                        key@,
                    );
                }
            }
            high = mid;
        }
    }
    low
}

/// Inserting a byte string at its insertion point keeps a sequence sorted.
proof fn lemma_insert_sorted(s: Seq<Seq<u8>>, key: Seq<u8>, at: int)
    requires
        lex_sorted(s),
        0 <= at <= s.len(),
        forall|i: int| 0 <= i < at ==> lex_le(#[trigger] s[i], key),
        forall|i: int| at <= i < s.len() ==> !lex_le(#[trigger] s[i], key),
    ensures
        lex_sorted(s.insert(at, key)),
{
    let t = s.insert(at, key);
    assert forall|i: int, j: int| 0 <= i <= j < t.len() implies lex_le(
        #[trigger] t[i],
        #[trigger] t[j],
    ) by {
        lemma_lex_reflexive(key);
        if i == at && j > at {
            assert(t[j] == s[j - 1]);
            lemma_lex_total(key, s[j - 1]);
        } else if i < at && j == at {
            assert(t[i] == s[i]);
        } else if i != at && j != at {
            let i0 = if i < at { i } else { i - 1 };
            let j0 = if j < at { j } else { j - 1 };
            assert(t[i] == s[i0] && t[j] == s[j0]);
        }
    }
}

/// Sorts byte strings in lexicographic order, keeping every occurrence.
pub fn sort(items: Vec<Vec<u8>>) -> (sorted: Vec<Vec<u8>>)
    ensures
        lex_sorted(contents(sorted@)),
        forall|i: int, j: int|
            0 <= i <= j < sorted@.len() ==> lex_le(#[trigger] sorted@[i]@, #[trigger] sorted@[j]@),
        contents(sorted@).to_multiset() == contents(items@).to_multiset(),
        sorted@.len() == items@.len(),
{
    let mut items = items;
    let ghost all = contents(items@);
    let mut sorted: Vec<Vec<u8>> = Vec::new();
    proof {
        assert(contents(sorted@) =~= Seq::<Seq<u8>>::empty());
        contents(sorted@).to_multiset_ensures();
        assert(contents(items@).to_multiset().add(contents(sorted@).to_multiset())
            =~= all.to_multiset());
    }
    while items.len() > 0
        invariant
            lex_sorted(contents(sorted@)),
            contents(items@).to_multiset().add(contents(sorted@).to_multiset())
                == all.to_multiset(),
        decreases items@.len(),
    {
        let ghost items_before = items@;
        let ghost sorted_before = sorted@;
        let item: Vec<u8> = items.pop().unwrap();
        let at: usize = insertion_point(&sorted, item.as_slice());
        sorted.insert(at, item);
        proof {
            lemma_insert_sorted(contents(sorted_before), item@, at as int);
            assert(contents(sorted@) =~= contents(sorted_before).insert(at as int, item@));
            assert(contents(items_before) =~= contents(items@).push(item@));
            contents(items@).to_multiset_ensures();
            vstd::seq_lib::to_multiset_insert(contents(sorted_before), at as int, item@);
            assert(contents(items@).to_multiset().add(contents(sorted@).to_multiset())
                =~= contents(items_before).to_multiset().add(
                contents(sorted_before).to_multiset(),
            ));
        }
    }
    proof {
        assert(contents(items@) =~= Seq::<Seq<u8>>::empty());
        contents(items@).to_multiset_ensures();
        assert(contents(sorted@).to_multiset() =~= contents(items@).to_multiset().add(
            contents(sorted@).to_multiset(),
        ));
        contents(sorted@).to_multiset_ensures();
        all.to_multiset_ensures();
        assert forall|i: int, j: int| 0 <= i <= j < sorted@.len() implies lex_le(
            #[trigger] sorted@[i]@,
            #[trigger] sorted@[j]@,
        ) by {
            assert(contents(sorted@)[i] == sorted@[i]@ && contents(sorted@)[j] == sorted@[j]@);
        }
    }
    sorted
}

/// A set of byte strings, kept as a sorted vector without duplicates.
pub struct ByteSet {
    items: Vec<Vec<u8>>,
}

impl View for ByteSet {
    type V = Set<Seq<u8>>;

    closed spec fn view(&self) -> Set<Seq<u8>> {
        contents(self.items@).to_set()
    }
}

impl ByteSet {
    #[verifier::type_invariant]
    spec fn sorted_and_distinct(self) -> bool {
        &&& lex_sorted(contents(self.items@))
        &&& contents(self.items@).no_duplicates()
    }

    /// The empty set.
    pub fn new() -> (set: Self)
        ensures
            set@ == Set::<Seq<u8>>::empty(),
    {
        let items: Vec<Vec<u8>> = Vec::new();
        assert(contents(items@).to_set() =~= Set::<Seq<u8>>::empty());
        ByteSet { items }
    }

    /// Adds `key` to the set, returning whether it was not in it before.
    pub fn insert(&mut self, key: &[u8]) -> (inserted: bool)
        ensures
            inserted == !old(self)@.contains(key@),
            final(self)@ == old(self)@.insert(key@),
    {
        proof {
            use_type_invariant(&*self);
        }
        let at: usize = insertion_point(&self.items, key);
        let ghost before = contents(self.items@);
        if at > 0 && le(key, self.items[at - 1].as_slice()) {
            proof {
                assert(before[at - 1] == self.items@[at - 1]@);
                lemma_lex_antisymmetric(key@, before[at - 1]);
                assert(before.contains(before[at - 1]));
                assert(self@.insert(key@) =~= self@);
            }
            return false;
        }
        proof {
            assert forall|i: int| 0 <= i < before.len() implies before[i] != key@ by {
                lemma_lex_reflexive(key@);
                if i < at && before[i] == key@ {
                    assert(before[at - 1] == self.items@[at - 1]@);
                    assert(lex_le(before[i], before[at - 1]));
                }
            }
        }
        let mut items: Vec<Vec<u8>> = Vec::new();
        std::mem::swap(&mut items, &mut self.items);
        let item: Vec<u8> = vstd::slice::slice_to_vec(key);
        items.insert(at, item);
        proof {
            lemma_insert_sorted(before, key@, at as int);
            let after = contents(items@);
            assert(after =~= before.insert(at as int, key@));
            assert forall|i: int, j: int|
                0 <= i < after.len() && 0 <= j < after.len() && i != j implies after[i]
                != after[j] by {
                let i0 = if i < at {
                    i
                } else {
                    i - 1
                };
                let j0 = if j < at {
                    j
                } else {
                    j - 1
                };
                assert(i != at ==> after[i] == before[i0]);
                assert(j != at ==> after[j] == before[j0]);
            }
            assert forall|k: Seq<u8>| after.contains(k) <==> before.contains(k) || k == key@ by {
                assert(after[at as int] == key@);
                if before.contains(k) {
                    let i = choose|i: int| 0 <= i < before.len() && before[i] == k;
                    let i1 = if i < at {
                        i
                    } else {
                        i + 1
                    };
                    assert(after[i1] == k);
                }
                if after.contains(k) && k != key@ {
                    let i = choose|i: int| 0 <= i < after.len() && after[i] == k;
                    let i0 = if i < at {
                        i
                    } else {
                        i - 1
                    };
                    assert(before[i0] == k);
                }
            }
            assert(after.to_set() =~= before.to_set().insert(key@));
        }
        self.items = items;
        true
    }
}

/// One byte string comes before another, or equals it, exactly if it is the
/// beginning of the other, or holds the smaller byte at the first place at which
/// the two differ.
pub proof fn law_first_difference_decides(a: Seq<u8>, b: Seq<u8>)
    ensures
        lex_le(a, b) <==> a.is_prefix_of(b) || exists|k: int|
            0 <= k < a.len() && k < b.len() && #[trigger] a[k] < b[k] && a.take(k) == b.take(k),
    decreases a.len(),
{
    if a.len() == 0 {
        assert(a =~= b.subrange(0, 0));
    } else if b.len() > 0 {
        let (a1, b1) = (a.drop_first(), b.drop_first());
        law_first_difference_decides(a1, b1);
        if a[0] < b[0] {
            assert(a.take(0) =~= b.take(0));
        }
        if a[0] == b[0] {
            if a1.is_prefix_of(b1) {
                assert(a =~= b.subrange(0, a.len() as int)) by {
                    assert forall|i: int| 0 <= i < a.len() implies a[i] == b[i] by {
                        if i > 0 {
                            assert(a1[i - 1] == b1.subrange(0, a1.len() as int)[i - 1]);
                        }
                    }
                }
            }
            if exists|k: int|
                0 <= k < a1.len() && k < b1.len() && #[trigger] a1[k] < b1[k] && a1.take(k)
                    == b1.take(k) {
                let k = choose|k: int|
                    0 <= k < a1.len() && k < b1.len() && #[trigger] a1[k] < b1[k] && a1.take(k)
                        == b1.take(k);
                assert(a[k + 1] < b[k + 1]);
                assert(a.take(k + 1) =~= seq![a[0]] + a1.take(k));
                assert(b.take(k + 1) =~= seq![b[0]] + b1.take(k));
            }
        }
        if a.is_prefix_of(b) {
            assert(a[0] == b.subrange(0, a.len() as int)[0]);
            assert forall|i: int| 0 <= i < a1.len() implies a1[i] == b1[i] by {
                assert(a[i + 1] == b.subrange(0, a.len() as int)[i + 1]);
            }
            assert(a1 =~= b1.subrange(0, a1.len() as int));
        }
        if exists|k: int|
            0 <= k < a.len() && k < b.len() && #[trigger] a[k] < b[k] && a.take(k) == b.take(k) {
            let k = choose|k: int|
                0 <= k < a.len() && k < b.len() && #[trigger] a[k] < b[k] && a.take(k) == b.take(k);
            if k > 0 {
                assert(a.take(k)[0] == b.take(k)[0]);
                assert(a1[k - 1] < b1[k - 1]);
                assert(a1.take(k - 1) =~= a.take(k).drop_first());
                assert(b1.take(k - 1) =~= b.take(k).drop_first());
            }
        }
    }
}

/// What is known of a list of byte strings is what they hold, each at its own
/// place.
pub proof fn law_contents_are_what_is_held(items: Seq<Vec<u8>>)
    ensures
        contents(items).len() == items.len(),
        forall|i: int| 0 <= i < items.len() ==> #[trigger] contents(items)[i] == items[i]@,
{
}

/// In a sorted list no byte string comes before one that stands before it.
pub proof fn law_sorted_lists_ascend(s: Seq<Seq<u8>>, i: int, j: int)
    requires
        lex_sorted(s),
        0 <= i < j < s.len(),
        lex_le(s[j], s[i]),
    ensures
        s[i] == s[j],
{
    lemma_lex_antisymmetric(s[i], s[j]);
}

} // verus!
