//! The decision core of the network engine: shape invariants of the weight
//! and bias stack, the per-epoch training schedule, random selection of
//! training samples, construction-time configuration checks, and scoring of a
//! validation pass. The floating-point kernels that act on these decisions
//! (affine transforms, ReLU, softmax, gradient updates) cannot be stated over
//! exact values and live with the surrounding program.

use vstd::prelude::*;

use rand::seq::SliceRandom;
use rayon::iter::{IndexedParallelIterator, IntoParallelRefIterator, ParallelIterator};
use vstd::arithmetic::div_mod::{lemma_div_is_ordered, lemma_div_multiples_vanish};
use vstd::arithmetic::mul::lemma_mul_inequality;

verus! {

/// Number of training epochs one call of the training loop runs.
pub const NUM_EPOCHS: usize = 10;

// ---------------------------------------------------------------------------
// Network shape
// ---------------------------------------------------------------------------

/// The layer widths of a network: input width, one width per hidden layer,
/// output width. Transition `t` (a weight matrix and a bias vector) maps
/// activations of width `width(t)` to pre-activations of width `width(t + 1)`.
pub struct NetworkShape {
    pub num_input: usize,
    pub num_output: usize,
    pub hidden: Vec<usize>,
}

impl NetworkShape {
    /// Every layer is non-empty.
    pub open spec fn wf(&self) -> bool {
        &&& self.num_input >= 1
        &&& self.num_output >= 1
        &&& forall|i: int| 0 <= i < self.hidden@.len() ==> self.hidden@[i] >= 1
        &&& self.hidden@.len() < usize::MAX
    }

    /// Number of hidden layers.
    pub open spec fn spec_hidden(&self) -> Seq<usize> {
        self.hidden@
    }

    /// Number of transitions: one per hidden layer, plus the output one.
    pub open spec fn spec_transitions(&self) -> int {
        self.hidden@.len() as int + 1
    }

    /// Width of layer `lvl`: the input width at 0, then the hidden widths,
    /// then the output width at `spec_transitions()`.
    pub open spec fn spec_width(&self, lvl: int) -> int {
        if lvl <= 0 {
            self.num_input as int
        } else if lvl <= self.hidden@.len() {
            self.hidden@[lvl - 1] as int
        } else {
            self.num_output as int
        }
    }

    /// Row count of transition `t`'s weight matrix.
    pub open spec fn spec_weight_rows(&self, t: int) -> int {
        self.spec_width(t)
    }

    /// Column count of transition `t`'s weight matrix.
    pub open spec fn spec_weight_cols(&self, t: int) -> int {
        self.spec_width(t + 1)
    }

    /// Length of transition `t`'s bias vector.
    pub open spec fn spec_bias_len(&self, t: int) -> int {
        self.spec_width(t + 1)
    }

    /// Builds the shape of a network with the given input width, output width
    /// and hidden widths. With no hidden widths the network is a single
    /// affine transform from input to output.
    pub fn new(num_input: usize, num_output: usize, hidden: Vec<usize>) -> (s: NetworkShape)
        requires
            num_input >= 1,
            num_output >= 1,
            forall|i: int| 0 <= i < hidden@.len() ==> hidden@[i] >= 1,
            hidden@.len() < usize::MAX,
        ensures
            s.wf(),
            s.spec_hidden() == hidden@,
            s.spec_width(0) == num_input,
            s.spec_width(s.spec_transitions()) == num_output,
    {
        NetworkShape { num_input, num_output, hidden }
    }

    /// Number of transitions (weight matrices and bias vectors) to allocate.
    pub fn transitions(&self) -> (n: usize)
        requires
            self.wf(),
        ensures
            n == self.spec_transitions(),
    {
        self.hidden.len() + 1
    }

    /// Width of layer `lvl`.
    pub fn width(&self, lvl: usize) -> (w: usize)
        requires
            self.wf(),
            lvl <= self.spec_transitions(),
        ensures
            w == self.spec_width(lvl as int),
            w >= 1,
    {
        if lvl == 0 {
            self.num_input
        } else if lvl <= self.hidden.len() {
            self.hidden[lvl - 1]
        } else {
            self.num_output
        }
    }

    /// Row count of transition `t`'s weight matrix.
    pub fn weight_rows(&self, t: usize) -> (r: usize)
        requires
            self.wf(),
            t < self.spec_transitions(),
        ensures
            r == self.spec_weight_rows(t as int),
            r >= 1,
    {
        self.width(t)
    }

    /// Column count of transition `t`'s weight matrix.
    pub fn weight_cols(&self, t: usize) -> (c: usize)
        requires
            self.wf(),
            t < self.spec_transitions(),
        ensures
            c == self.spec_weight_cols(t as int),
            c >= 1,
    {
        self.width(t + 1)
    }

    /// Length of transition `t`'s bias vector.
    pub fn bias_len(&self, t: usize) -> (l: usize)
        requires
            self.wf(),
            t < self.spec_transitions(),
        ensures
            l == self.spec_bias_len(t as int),
            l >= 1,
    {
        self.width(t + 1)
    }
}

/// Chained shape consistency: in a well-formed shape, the column count of
/// each weight matrix equals the length of the bias vector of the same
/// transition, and equals the row count of the next transition's weight
/// matrix; and every dimension is positive.
pub proof fn lemma_shape_chain(s: NetworkShape, t: int)
    requires
        s.wf(),
        0 <= t < s.spec_transitions(),
    ensures
        s.spec_weight_cols(t) == s.spec_bias_len(t),
        t + 1 < s.spec_transitions() ==> s.spec_weight_cols(t) == s.spec_weight_rows(t + 1),
        s.spec_weight_rows(t) >= 1,
        s.spec_weight_cols(t) >= 1,
{
}

/// A network without hidden layers has exactly one transition, whose weight
/// matrix maps the input layer straight to the output layer: its forward pass
/// is a single affine transform (followed by the output nonlinearity).
pub proof fn lemma_no_hidden_single_transition(s: NetworkShape)
    requires
        s.wf(),
        s.spec_hidden().len() == 0,
    ensures
        s.spec_transitions() == 1,
        s.spec_weight_rows(0) == s.num_input,
        s.spec_weight_cols(0) == s.num_output,
        s.spec_bias_len(0) == s.num_output,
{
}

/// Decides whether a network configuration is acceptable: positive input and
/// output widths, exactly `num_hidden_layer` hidden widths, each positive.
/// A caller must reject a configuration this refuses before building the
/// shape.
pub fn valid_dims(
    num_input: usize,
    num_output: usize,
    num_hidden_layer: usize,
    hidden: &Vec<usize>,
) -> (ok: bool)
    ensures
        ok == (num_input >= 1 && num_output >= 1 && hidden@.len() == num_hidden_layer && (
        forall|i: int| 0 <= i < hidden@.len() ==> hidden@[i] >= 1)),
{
    if num_input == 0 || num_output == 0 || hidden.len() != num_hidden_layer {
        return false;
    }
    let mut i: usize = 0;
    while i < hidden.len()
        invariant
            i <= hidden@.len(),
            forall|j: int| 0 <= j < i ==> hidden@[j] >= 1,
        decreases hidden@.len() - i,
    {
        if hidden[i] == 0 {
            return false;
        }
        i = i + 1;
    }
    true
}

// ---------------------------------------------------------------------------
// Partitions
// ---------------------------------------------------------------------------

/// The data and label partitions are consistent: three of each, the label
/// sequence of every partition as long as its data sequence, and the training
/// partition (partition 0) non-empty, so that the feature and class counts
/// can be derived from its first sample.
pub open spec fn partitions_ok(data_lens: Seq<usize>, label_lens: Seq<usize>) -> bool {
    &&& data_lens.len() == 3
    &&& label_lens.len() == 3
    &&& forall|p: int| 0 <= p < 3 ==> data_lens[p] == label_lens[p]
    &&& data_lens[0] > 0
}

/// Decides whether partition lengths are consistent (see [`partitions_ok`]).
/// A caller must reject inconsistent partitions before construction rather
/// than fail deep inside training.
pub fn check_partitions(data_lens: &Vec<usize>, label_lens: &Vec<usize>) -> (ok: bool)
    ensures
        ok == partitions_ok(data_lens@, label_lens@),
{
    data_lens.len() == 3 && label_lens.len() == 3 && data_lens[0] == label_lens[0]
        && data_lens[1] == label_lens[1] && data_lens[2] == label_lens[2] && data_lens[0] > 0
}

// ---------------------------------------------------------------------------
// Training schedule
// ---------------------------------------------------------------------------

/// How many training samples epoch `epoch` (0-indexed) uses out of `len`:
/// the inclusion fraction grows linearly from one tenth in the first epoch
/// to the whole training partition in the last.
pub open spec fn spec_selected_count(epoch: int, len: int) -> int {
    (epoch + 1) * len / (NUM_EPOCHS as int)
}

/// Number of training samples epoch `epoch` trains on, out of a training
/// partition of length `len`.
pub fn selected_count(epoch: usize, len: usize) -> (n: usize)
    requires
        epoch < NUM_EPOCHS,
        len <= usize::MAX / NUM_EPOCHS,
    ensures
        n == spec_selected_count(epoch as int, len as int),
        n <= len,
{
    proof {
        lemma_mul_inequality(epoch as int + 1, NUM_EPOCHS as int, len as int);
        lemma_div_is_ordered(
            (epoch as int + 1) * (len as int),
            (NUM_EPOCHS as int) * (len as int),
            NUM_EPOCHS as int,
        );
        lemma_div_multiples_vanish(len as int, NUM_EPOCHS as int);
    }
    (epoch + 1) * len / NUM_EPOCHS
}

/// Denominator of the learning rate used in epoch `epoch`: the rate starts
/// at one hundredth and decays as `1 / (100 + 10 * epoch)`, which is the
/// exact value of the schedule `0.01 / (1 + 0.1 * epoch)`. A caller divides
/// one by this denominator in its own numeric type.
pub fn learning_rate_denom(epoch: usize) -> (d: usize)
    requires
        epoch < NUM_EPOCHS,
    ensures
        d == 100 + 10 * epoch,
{
    100 + 10 * epoch
}

/// The identity ordering of a training partition of length `len`: index `i`
/// at position `i`. Training epochs reorder it in place.
pub fn initial_indexes(len: usize) -> (v: Vec<usize>)
    ensures
        v@.len() == len,
        forall|i: int| 0 <= i < len ==> v@[i] == i,
        v@.no_duplicates(),
{
    let mut v: Vec<usize> = Vec::new();
    let mut i: usize = 0;
    while i < len
        invariant
            i <= len,
            v@.len() == i,
            forall|j: int| 0 <= j < i ==> v@[j] == j,
        decreases len - i,
    {
        v.push(i);
        i = i + 1;
    }
    v
}

/// Relies on rand's `SliceRandom::partial_shuffle`: it reorders the slice in
/// place by swapping elements so that the last `amount` positions hold a
/// random selection from the whole slice, and it neither adds, drops nor
/// changes any element, so the reordered vector holds exactly the elements it
/// held before.
#[verifier::external_body]
fn shuffle_tail(v: &mut Vec<usize>, amount: usize)
    ensures
        final(v)@.len() == old(v)@.len(),
        final(v)@.to_multiset() == old(v)@.to_multiset(),
{
    let mut rng = rand::rng();
    v.as_mut_slice().partial_shuffle(&mut rng, amount);
}

/// Reorders the training indexes at random and selects the ones the given
/// epoch trains on: the `spec_selected_count` positions that the partial
/// shuffle filled with its random selection (the tail of the reordered
/// vector), in their reordered order. The reordering keeps exactly the
/// elements that were there, so every selected index was in the vector before
/// the call, and distinct indexes stay distinct.
pub fn select_training_indexes(order: &mut Vec<usize>, epoch: usize) -> (sel: Vec<usize>)
    requires
        epoch < NUM_EPOCHS,
        old(order)@.len() <= usize::MAX / NUM_EPOCHS,
    ensures
        final(order)@.len() == old(order)@.len(),
        final(order)@.to_multiset() == old(order)@.to_multiset(),
        sel@.len() == spec_selected_count(epoch as int, old(order)@.len() as int),
        sel@ == final(order)@.skip(old(order)@.len() - sel@.len()),
        forall|j: int| 0 <= j < sel@.len() ==> old(order)@.contains(#[trigger] sel@[j]),
        old(order)@.no_duplicates() ==> sel@.no_duplicates(),
{
    let ghost orig = order@;
    let len = order.len();
    let amount = selected_count(epoch, len);
    shuffle_tail(order, amount);
    let start = len - amount;
    let mut sel: Vec<usize> = Vec::new();
    let mut i: usize = start;
    while i < len
        invariant
            start <= i <= len,
            start == len - amount,
            amount <= len,
            order@.len() == len,
            order@.len() == orig.len(),
            order@.to_multiset() == orig.to_multiset(),
            sel@.len() == i - start,
            forall|j: int| 0 <= j < sel@.len() ==> #[trigger] sel@[j] == order@[start + j],
        decreases len - i,
    {
        let idx = order[i];
        sel.push(idx);
        i = i + 1;
    }
    proof {
        broadcast use vstd::seq_lib::group_to_multiset_ensures;

        assert(sel@ =~= order@.skip(start as int));
        assert forall|j: int| 0 <= j < sel@.len() implies orig.contains(#[trigger] sel@[j]) by {
            assert(order@[start + j] == sel@[j]);
            assert(order@.contains(sel@[j]));
            assert(order@.to_multiset().count(sel@[j]) > 0);
            assert(orig.to_multiset().count(sel@[j]) > 0);
        }
        if orig.no_duplicates() {
            orig.lemma_multiset_has_no_duplicates();
            order@.lemma_multiset_has_no_duplicates_conv();
            assert forall|a: int, b: int|
                0 <= a < sel@.len() && 0 <= b < sel@.len() && a != b implies sel@[a]
                != sel@[b] by {
                assert(sel@[a] == order@[start + a]);
                assert(sel@[b] == order@[start + b]);
            }
        }
    }
    sel
}

// ---------------------------------------------------------------------------
// Validation scoring
// ---------------------------------------------------------------------------

/// Number of positions where the two sequences agree.
pub open spec fn match_count(a: Seq<usize>, b: Seq<usize>) -> nat
    decreases a.len(),
{
    if a.len() == 0 {
        0
    } else {
        match_count(a.drop_last(), b.drop_last()) + if a.last() == b.last() {
            1nat
        } else {
            0nat
        }
    }
}

/// The agreement count never exceeds the length scored.
pub proof fn lemma_match_count_le(a: Seq<usize>, b: Seq<usize>)
    ensures
        match_count(a, b) <= a.len(),
    decreases a.len(),
{
    if a.len() > 0 {
        lemma_match_count_le(a.drop_last(), b.drop_last());
    }
}

/// Whether a predicted class agrees with the true label.
fn labels_match(a: usize, b: usize) -> (r: bool)
    ensures
        r == (a == b),
{
    a == b
}

/// Relies on rayon's parallel iterators: `par_iter().zip(..)` pairs the two
/// vectors position by position, `filter` keeps the pairs the predicate
/// accepts, and `count` returns how many remain — the same elements, in some
/// order, as the sequential pipeline — so the result is the number of
/// positions where prediction and label agree.
#[verifier::external_body]
fn par_count_matches(preds: &Vec<usize>, labels: &Vec<usize>) -> (n: usize)
    requires
        preds@.len() == labels@.len(),
    ensures
        n == match_count(preds@, labels@),
{
    preds.par_iter().zip(labels.par_iter()).filter(|p| labels_match(*p.0, *p.1)).count()
}

/// Scores one validation pass: given the predicted class of every sample of
/// the scored partition and the true labels, returns the pair reported after
/// an epoch — how many predictions were correct, over the count of samples
/// actually scored. The denominator is always exactly the number of
/// predictions scored, never the length of another partition.
pub fn count_correct(preds: &Vec<usize>, labels: &Vec<usize>) -> (r: (usize, usize))
    requires
        preds@.len() == labels@.len(),
    ensures
        r.0 == match_count(preds@, labels@),
        r.1 == preds@.len(),
        r.0 <= r.1,
{
    proof {
        lemma_match_count_le(preds@, labels@);
    }
    let n = par_count_matches(preds, labels);
    (n, preds.len())
}

} // verus!
