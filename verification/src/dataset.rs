use rand::rngs::ThreadRng;
use rand::seq::{IteratorRandom, SliceRandom};
use vstd::multiset::Multiset;
use vstd::prelude::*;

verus! {

broadcast use {vstd::multiset::group_multiset_axioms, vstd::seq_lib::group_to_multiset_ensures};

/// Whether `p` lists every index below `n` exactly once.
pub open spec fn is_permutation(p: Seq<usize>, n: nat) -> bool {
    &&& p.len() == n
    &&& forall|i: int| 0 <= i < p.len() ==> (#[trigger] p[i]) < n
    &&& forall|i: int, j: int| 0 <= i < j < p.len() ==> p[i] != p[j]
}

/// The items of `s` in the order that `p` lists their indices.
pub open spec fn reorder<E>(s: Seq<E>, p: Seq<usize>) -> Seq<E> {
    p.map_values(|i: usize| s[i as int])
}

/// The items still held in a row of slots, counted with multiplicity.
spec fn held<E>(s: Seq<Option<E>>) -> Multiset<E>
    decreases s.len(),
{
    if s.len() == 0 {
        Multiset::empty()
    } else {
        let rest = held(s.drop_last());
        match s.last() {
            Some(x) => rest.insert(x),
            None => rest,
        }
    }
}

proof fn lemma_held_take<E>(s: Seq<Option<E>>, i: int)
    requires
        0 <= i < s.len(),
        s[i] is Some,
    ensures
        held(s) == held(s.update(i, None)).insert(s[i]->0),
    decreases s.len(),
{
    let t = s.update(i, None);
    if i == s.len() - 1 {
        assert(t.drop_last() =~= s.drop_last());
    } else {
        assert(t.drop_last() =~= s.drop_last().update(i, None));
        lemma_held_take(s.drop_last(), i);
        assert(t.last() == s.last());
    }
}

proof fn lemma_held_all<E>(s: Seq<E>)
    ensures
        held(s.map_values(|x: E| Some(x))) == s.to_multiset(),
    decreases s.len(),
{
    let m = s.map_values(|x: E| Some(x));
    if s.len() == 0 {
        assert(s =~= Seq::<E>::empty());
    } else {
        lemma_held_all(s.drop_last());
        assert(m.drop_last() =~= s.drop_last().map_values(|x: E| Some(x)));
        assert(s.drop_last().push(s.last()) =~= s);
    }
}

/// Moves the items of `items` into a new vector, in the order that the
/// permutation `order` lists their indices.
pub fn apply_order<E>(items: Vec<E>, order: &Vec<usize>) -> (out: Vec<E>)
    requires
        is_permutation(order@, items@.len()),
    ensures
        out@ == reorder(items@, order@),
        out@.to_multiset() == items@.to_multiset(),
{
    let n = items.len();
    let ghost orig = items@;
    let mut slots: Vec<Option<E>> = Vec::new();
    for x in it: items.into_iter()
        invariant
            it.seq() == orig,
            slots@ == orig.take(it.index() as int).map_values(|y: E| Some(y)),
    {
        slots.push(Some(x));
        assert(orig.take(it.index() as int).map_values(|y: E| Some(y)).push(Some(x))
            =~= orig.take(it.index() + 1).map_values(|y: E| Some(y)));
    }
    assert(orig.take(n as int) =~= orig);
    proof {
        lemma_held_all(orig);
    }
    let mut out: Vec<E> = Vec::new();
    let mut i: usize = 0;
    while i < n
        invariant
            n == orig.len(),
            is_permutation(order@, n as nat),
            0 <= i <= n,
            slots@.len() == n,
            out@ =~= reorder(orig, order@.take(i as int)),
            forall|j: int| 0 <= j < i ==> slots@[#[trigger] order@[j] as int] is None,
            forall|k: int|
                0 <= k < n && (forall|j: int| 0 <= j < i ==> order@[j] != k) ==> #[trigger] slots@[k]
                    == Some(orig[k]),
            out@.to_multiset().add(held(slots@)) == orig.to_multiset(),
        decreases n - i,
    {
        let idx = order[i];
        assert(forall|j: int| 0 <= j < i ==> order@[j] != idx);
        assert(slots@[idx as int] == Some(orig[idx as int]));
        let ghost before = slots@;
        let taken = slots[idx].take();
        proof {
            lemma_held_take(before, idx as int);
            assert(slots@ =~= before.update(idx as int, None));
        }
        match taken {
            Some(x) => {
                out.push(x);
            },
            None => {
                assert(false);
            },
        }
        assert(order@.take(i + 1) =~= order@.take(i as int).push(idx));
        i = i + 1;
    }
    assert(order@.take(n as int) =~= order@);
    assert(out@.len() == n);
    assert(out@.to_multiset().len() == n);
    assert(orig.to_multiset().len() == n);
    assert(held(slots@).len() == 0);
    proof {
        vstd::multiset::lemma_multiset_empty_len(held(slots@));
    }
    assert(out@.to_multiset().add(held(slots@)) =~= out@.to_multiset());
    out
}

/// The number of entries held out for checking: `k`, or all `n` when there are fewer.
pub open spec fn fold_size(n: nat, k: nat) -> nat {
    if k < n {
        k
    } else {
        n
    }
}

#[verifier::external_type_specification]
#[verifier::external_body]
pub struct ExThreadRng(ThreadRng);

/// `rand::thread_rng`: the thread-local generator, seeded by the system.
/// Nothing is stated of it; its state is opaque here.
#[verifier::external_body]
fn thread_rng() -> ThreadRng {
    rand::thread_rng()
}

/// `rand::seq::IteratorRandom::choose_multiple` on the positions `0..len`:
/// a sample of `amount` distinct positions, or of all `len` when there are
/// fewer. The sample has that length, holds positions below `len`, and holds
/// none twice (the reservoir keeps each item of the iterator in at most one
/// slot). When `amount` is at least `len`, the reservoir takes the whole range
/// and draws nothing, so the sample is `0..len` in order; for a smaller
/// `amount`, which positions come out and in what order rests on the
/// generator and is not stated. `requires` keeps the reservoir's initial
/// allocation of `amount` positions within what `Vec` can allocate.
#[verifier::external_body]
fn choose_multiple(rng: &mut ThreadRng, len: usize, amount: usize) -> (picked: Vec<usize>)
    requires
        amount <= isize::MAX / 8,
    ensures
        picked@.len() == fold_size(len as nat, amount as nat),
        forall|i: int| 0 <= i < picked@.len() ==> (#[trigger] picked@[i]) < len,
        forall|i: int, j: int| 0 <= i < j < picked@.len() ==> picked@[i] != picked@[j],
        amount >= len ==> picked@ == Seq::new(len as nat, |i: int| i as usize),
{
    (0..len).choose_multiple(rng, amount)
}

/// `rand::seq::SliceRandom::shuffle` on a vector of positions: a
/// Fisher-Yates shuffle, which only swaps items, so the vector keeps its
/// length and its items with their multiplicities. The order that comes out
/// rests on the generator and is not stated.
#[verifier::external_body]
fn shuffle(rng: &mut ThreadRng, positions: &mut Vec<usize>)
    ensures
        final(positions)@.len() == old(positions)@.len(),
        final(positions)@.to_multiset() == old(positions)@.to_multiset(),
{
    positions.shuffle(rng)
}

/// The positions `0..n`, in order.
pub open spec fn identity(n: nat) -> Seq<usize> {
    Seq::new(n, |i: int| i as usize)
}

fn positions(n: usize) -> (v: Vec<usize>)
    ensures
        v@ == identity(n as nat),
{
    let mut v: Vec<usize> = Vec::new();
    let mut i: usize = 0;
    while i < n
        invariant
            0 <= i <= n,
            v@ =~= identity(i as nat),
        decreases n - i,
    {
        v.push(i);
        i = i + 1;
    }
    v
}

/// A reordering of `0..n` that keeps every position with its multiplicity
/// lists each position below `n` exactly once.
proof fn lemma_permutation_of_identity(p: Seq<usize>, n: nat)
    requires
        p.len() == n,
        n <= usize::MAX,
        p.to_multiset() == identity(n).to_multiset(),
    ensures
        is_permutation(p, n),
{
    let id = identity(n);
    assert forall|i: int| 0 <= i < n implies (#[trigger] id[i]) == i by {}
    assert(id.no_duplicates());
    id.lemma_multiset_has_no_duplicates();
    assert forall|i: int| 0 <= i < p.len() implies (#[trigger] p[i]) < n by {
        assert(p.contains(p[i]));
        assert(p.to_multiset().count(p[i]) > 0);
        assert(id.contains(p[i]));
        let j = choose|j: int| 0 <= j < id.len() && id[j] == p[i];
    }
    assert forall|x: usize| p.to_multiset().contains(x) implies p.to_multiset().count(x) == 1 by {
        assert(id.to_multiset().contains(x));
    }
    p.lemma_multiset_has_no_duplicates_conv();
}

/// Samples for training a sequence model: each entry is a sequence of inputs
/// and the label that followed it.
#[derive(Clone, Debug)]
pub struct DataSet<T> {
    dataset: Vec<(Vec<T>, T)>,
}

/// A data set split in two: the part to train on and the part held out to
/// check what was learnt.
pub struct OrderedDataSet<T> {
    /// The input data.
    pub trainning_data: DataSet<T>,
    /// The held-out data.
    pub verification_data: DataSet<T>,
}

impl<T> View for DataSet<T> {
    type V = Seq<(Vec<T>, T)>;

    closed spec fn view(&self) -> Seq<(Vec<T>, T)> {
        self.dataset@
    }
}

impl<T> DataSet<T> {
    /// A data set of the given entries, in their order.
    pub fn from_iter(entries: Vec<(Vec<T>, T)>) -> (d: DataSet<T>)
        ensures
            d@ == entries@,
    {
        DataSet { dataset: entries }
    }

    /// The number of entries.
    pub fn len(&self) -> (n: usize)
        ensures
            n == self@.len(),
    {
        self.dataset.len()
    }

    /// The entries of the data set, in their order.
    pub fn into_iter(self) -> (entries: Vec<(Vec<T>, T)>)
        ensures
            entries@ == self@,
    {
        self.dataset
    }

    /// Splits the data set along two given permutations: `shuffle` reorders all
    /// entries; of the reordered entries the first `k` (all, if there are
    /// fewer) are held out, in the order that `picks` lists them, and the rest
    /// are kept for training.
    pub fn split_with_orders(self, k: usize, shuffle: &Vec<usize>, picks: &Vec<usize>) -> (r:
        OrderedDataSet<T>)
        requires
            is_permutation(shuffle@, self@.len()),
            is_permutation(picks@, fold_size(self@.len(), k as nat)),
        ensures
            r.verification_data@ == reorder(
                reorder(self@, shuffle@).take(fold_size(self@.len(), k as nat) as int),
                picks@,
            ),
            r.trainning_data@ == reorder(self@, shuffle@).skip(
                fold_size(self@.len(), k as nat) as int,
            ),
            (r.trainning_data@ + r.verification_data@).to_multiset() == self@.to_multiset(),
    {
        let n = self.dataset.len();
        let m = if k < n {
            k
        } else {
            n
        };
        let mut shuffled = apply_order(self.dataset, shuffle);
        let ghost whole = shuffled@;
        let training = shuffled.split_off(m);
        let held_out = apply_order(shuffled, picks);
        proof {
            assert(whole =~= whole.take(m as int) + whole.skip(m as int));
            vstd::seq_lib::lemma_multiset_commutative(whole.take(m as int), whole.skip(m as int));
            vstd::seq_lib::lemma_multiset_commutative(training@, held_out@);
            assert(training@ =~= whole.skip(m as int));
        }
        OrderedDataSet {
            trainning_data: DataSet { dataset: training },
            verification_data: DataSet { dataset: held_out },
        }
    }

    /// Randomizes a training and a verification data set from the data set:
    /// the entries are shuffled, the first `k` of them (all, if there are
    /// fewer) are held out for verification, the rest are kept for training.
    /// Call it `k` times for true k-fold cross validation.
    pub fn k_fold_cross_validation(self, k: usize) -> (r: OrderedDataSet<T>)
        requires
            self@.len() <= isize::MAX / 8,
        ensures
            r.verification_data@.len() == fold_size(self@.len(), k as nat),
            r.trainning_data@.len() == self@.len() - fold_size(self@.len(), k as nat),
            (r.trainning_data@ + r.verification_data@).to_multiset() == self@.to_multiset(),
            exists|shuffled: Seq<usize>|
                {
                    &&& is_permutation(shuffled, self@.len())
                    &&& r.verification_data@ == reorder(self@, shuffled).take(
                        fold_size(self@.len(), k as nat) as int,
                    )
                    &&& r.trainning_data@ == reorder(self@, shuffled).skip(
                        fold_size(self@.len(), k as nat) as int,
                    )
                },
    {
        let n = self.dataset.len();
        let m = if k < n {
            k
        } else {
            n
        };
        let mut rng = thread_rng();
        let mut order = positions(n);
        shuffle(&mut rng, &mut order);
        proof {
            lemma_permutation_of_identity(order@, n as nat);
        }
        let picks = choose_multiple(&mut rng, m, m);
        let ghost all = self@;
        let r = self.split_with_orders(k, &order, &picks);
        let ghost first = reorder(all, order@).take(m as int);
        assert(reorder(first, picks@) =~= first);
        r
    }
}

} // verus!
