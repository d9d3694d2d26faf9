//! How long records are.
//!
//! Padding to random lengths would itself stand out: real HTTPS has many small and
//! many nearly full records and few in between. Lengths are drawn from a Markov chain
//! over classes of lengths, and evenly within a class.
//!
//! Probabilities are integers in units of `1 / ONE`; a draw is a number below `ONE`.

use crate::random;
use rand::rngs::StdRng;
use vstd::prelude::*;

verus! {

/// The probability 1, in the units of all weights: 2 to the 53rd.
pub const ONE: u64 = 9007199254740992;

/// How far a sum of weights may be from `ONE`: a millionth.
pub const STOCHASTIC_EPS: u64 = 9007199254;

/// A range of record lengths.
#[derive(Debug, Clone, Copy, PartialEq, Eq, Structural)]
pub struct LenClass {
    pub min: usize,
    pub max: usize,
}

/// Why weights are no distribution.
#[derive(Debug, Clone, Copy, PartialEq, Eq, Structural)]
pub enum DistError {
    /// There is no class.
    NoClasses,
    /// The weights are not one row per class, with one weight per class in each.
    BadMatrixShape,
    /// A row of transition weights does not sum to `ONE`.
    RowNotStochastic { row: usize, sum: u128 },
    /// The initial weights do not sum to `ONE`.
    InitialNotStochastic(u128),
}

/// Classes of lengths and the weights of going from one to the next.
#[derive(Debug)]
pub struct LenDistribution {
    classes: Vec<LenClass>,
    transition: Vec<Vec<u64>>,
    initial: Vec<u64>,
}

impl LenClass {
    /// Whether there is a length in the class.
    pub open spec fn well_formed(self) -> bool {
        self.min <= self.max
    }

    /// Whether this length is in the class.
    pub open spec fn holds(self, len: int) -> bool {
        self.min <= len <= self.max
    }

    /// The class of the lengths from `min` to `max`.
    pub fn new(min: usize, max: usize) -> (c: Self)
        requires
            min <= max,
        ensures
            c == (LenClass { min, max }),
    {
        LenClass { min, max }
    }
}

/// The sum of the first `k` weights.
pub open spec fn weight_sum(w: Seq<u64>, k: nat) -> nat
    decreases k,
{
    if k == 0 {
        0
    } else {
        weight_sum(w, (k - 1) as nat) + w[k - 1] as nat
    }
}

/// Whether weights sum to `ONE`, up to `STOCHASTIC_EPS`.
pub open spec fn stochastic(w: Seq<u64>) -> bool {
    ONE - STOCHASTIC_EPS <= weight_sum(w, w.len()) <= ONE + STOCHASTIC_EPS
}

/// Whether `i` is the index that a draw picks: the first at which the running sum
/// exceeds the draw, or the last index if none does.
pub open spec fn is_pick(w: Seq<u64>, draw: u64, i: int) -> bool {
    &&& 0 <= i < w.len()
    &&& forall|j: int| 0 < j <= i ==> #[trigger] weight_sum(w, j as nat) <= draw
    &&& draw < weight_sum(w, (i + 1) as nat) || i == w.len() - 1
}

/// The classes of `media-abr-v1`.
pub open spec fn media_classes() -> Seq<LenClass> {
    seq![
        LenClass { min: 40, max: 120 },
        LenClass { min: 200, max: 900 },
        LenClass { min: 1200, max: 1460 },
    ]
}

/// Its weights behind a class, or at the start.
pub open spec fn media_row(state: Option<usize>) -> Seq<u64> {
    match state {
        Some(0) => seq![2702159776422298u64, 1801439850948198, 4503599627370496],
        Some(1) => seq![3152519739159347u64, 1351079888211149, 4503599627370496],
        Some(_) => seq![1351079888211149u64, 900719925474099, 6755399441055744],
        None => seq![2251799813685248u64, 900719925474099, 5854679515581645],
    }
}

/// Whether weights for `n` classes are refused for this reason, or taken.
pub open spec fn dist_verdict(
    n: nat,
    transition: Seq<Vec<u64>>,
    initial: Seq<u64>,
    why: Option<DistError>,
) -> bool {
    match why {
        None => {
            &&& n > 0
            &&& right_shape(n, transition, initial)
            &&& forall|i: int| 0 <= i < n ==> stochastic((#[trigger] transition[i])@)
            &&& stochastic(initial)
        },
        Some(DistError::NoClasses) => n == 0,
        Some(DistError::BadMatrixShape) => n > 0 && !right_shape(n, transition, initial),
        Some(DistError::RowNotStochastic { row, sum }) => {
            &&& n > 0
            &&& right_shape(n, transition, initial)
            &&& row < n
            &&& sum == weight_sum(transition[row as int]@, n)
            &&& !stochastic(transition[row as int]@)
            &&& forall|i: int| 0 <= i < row ==> stochastic((#[trigger] transition[i])@)
        },
        Some(DistError::InitialNotStochastic(sum)) => {
            &&& n > 0
            &&& right_shape(n, transition, initial)
            &&& forall|i: int| 0 <= i < n ==> stochastic((#[trigger] transition[i])@)
            &&& sum == weight_sum(initial, n)
            &&& !stochastic(initial)
        },
    }
}

/// Whether the weights are one row for each of `n` classes.
pub open spec fn right_shape(n: nat, transition: Seq<Vec<u64>>, initial: Seq<u64>) -> bool {
    &&& transition.len() == n
    &&& forall|i: int| 0 <= i < n ==> (#[trigger] transition[i])@.len() == n
    &&& initial.len() == n
}

proof fn lemma_weight_sum_bound(w: Seq<u64>, k: nat)
    ensures
        weight_sum(w, k) <= k * u64::MAX,
    decreases k,
{
    if k > 0 {
        lemma_weight_sum_bound(w, (k - 1) as nat);
        assert(k * u64::MAX == (k - 1) * u64::MAX + u64::MAX) by (nonlinear_arith)
            requires
                k > 0,
        ;
    }
}

proof fn lemma_weight_sum_fits(w: Seq<u64>, k: nat)
    requires
        k <= usize::MAX,
    ensures
        weight_sum(w, k) <= u128::MAX - u64::MAX,
{
    lemma_weight_sum_bound(w, k);
    assert(k * u64::MAX <= u64::MAX * u64::MAX) by (nonlinear_arith)
        requires
            k <= u64::MAX,
    ;
}

/// A draw picks exactly one index.
pub proof fn law_pick_unique(w: Seq<u64>, draw: u64, i: int, j: int)
    requires
        is_pick(w, draw, i),
        is_pick(w, draw, j),
    ensures
        i == j,
{
    if i < j {
        assert(weight_sum(w, (i + 1) as nat) <= draw);
    } else if j < i {
        assert(weight_sum(w, (j + 1) as nat) <= draw);
    }
}

/// A class without weight is never picked, except the last one on a draw beyond the
/// sum of all weights.
pub proof fn law_zero_weight_not_picked(w: Seq<u64>, draw: u64, i: int)
    requires
        is_pick(w, draw, i),
        w[i] == 0,
    ensures
        i == w.len() - 1 && weight_sum(w, w.len()) <= draw,
{
    assert(weight_sum(w, (i + 1) as nat) == weight_sum(w, i as nat));
    if i > 0 {
        assert(weight_sum(w, i as nat) <= draw);
    }
}

/// The sum of all weights.
fn sum_of(w: &Vec<u64>) -> (sum: u128)
    ensures
        sum == weight_sum(w@, w@.len()),
{
    let mut sum: u128 = 0;
    let mut i: usize = 0;
    while i < w.len()
        invariant
            i <= w@.len(),
            sum == weight_sum(w@, i as nat),
        decreases w@.len() - i,
    {
        proof {
            lemma_weight_sum_fits(w@, i as nat);
        }
        sum = sum + w[i] as u128;
        i += 1;
    }
    sum
}

/// Whether a sum is close enough to `ONE`.
fn close_to_one(sum: u128) -> (b: bool)
    ensures
        b == (ONE - STOCHASTIC_EPS <= sum <= ONE + STOCHASTIC_EPS),
{
    (ONE - STOCHASTIC_EPS) as u128 <= sum && sum <= (ONE + STOCHASTIC_EPS) as u128
}

/// The index that a draw picks.
fn pick_index(weights: &Vec<u64>, draw: u64) -> (i: usize)
    requires
        weights@.len() > 0,
    ensures
        is_pick(weights@, draw, i as int),
{
    let mut acc: u128 = 0;
    let mut i: usize = 0;
    while i < weights.len()
        invariant
            i <= weights@.len(),
            weights@.len() > 0,
            acc == weight_sum(weights@, i as nat),
            forall|j: int| 0 < j <= i ==> #[trigger] weight_sum(weights@, j as nat) <= draw,
        decreases weights@.len() - i,
    {
        proof {
            lemma_weight_sum_fits(weights@, i as nat);
        }
        acc = acc + weights[i] as u128;
        if (draw as u128) < acc {
            return i;
        }
        i += 1;
    }
    weights.len() - 1
}

impl LenDistribution {
    pub closed spec fn spec_classes(self) -> Seq<LenClass> {
        self.classes@
    }

    /// The weights with which the class after `state` is chosen, the initial ones
    /// where there is none yet.
    pub closed spec fn row(self, state: Option<usize>) -> Seq<u64> {
        match state {
            None => self.initial@,
            Some(i) => self.transition@[i as int]@,
        }
    }

    /// What every distribution keeps: some classes, each with a length in it, and
    /// weights that sum to `ONE` in every row.
    pub open spec fn well_formed(self) -> bool {
        let n = self.spec_classes().len();
        &&& n > 0
        &&& forall|i: int| 0 <= i < n ==> (#[trigger] self.spec_classes()[i]).well_formed()
        &&& self.row(None).len() == n
        &&& stochastic(self.row(None))
        &&& forall|i: usize|
            i < n ==> (#[trigger] self.row(Some(i))).len() == n && stochastic(self.row(Some(i)))
    }

    #[verifier::type_invariant]
    closed spec fn inv(self) -> bool {
        &&& self.well_formed()
        &&& self.transition@.len() == self.classes@.len()
    }

    /// A distribution of these classes and weights, if the weights are one. What is
    /// wrong is found in this order: no class, the shape, the first row that does not
    /// sum up, the initial weights.
    pub fn new(classes: Vec<LenClass>, transition: Vec<Vec<u64>>, initial: Vec<u64>) -> (r: Result<
        Self,
        DistError,
    >)
        requires
            forall|i: int| 0 <= i < classes@.len() ==> (#[trigger] classes@[i]).well_formed(),
        ensures
            match r {
                Ok(d) => {
                    &&& d.well_formed()
                    &&& d.spec_classes() == classes@
                    &&& d.row(None) == initial@
                    &&& dist_verdict(classes@.len(), transition@, initial@, None)
                    &&& forall|i: usize|
                        i < classes@.len() ==> #[trigger] d.row(Some(i)) == transition@[i as int]@
                },
                Err(why) => dist_verdict(classes@.len(), transition@, initial@, Some(why)),
            },
    {
        let n: usize = classes.len();
        if n == 0 {
            return Err(DistError::NoClasses);
        }
        if transition.len() != n {
            return Err(DistError::BadMatrixShape);
        }
        let mut i: usize = 0;
        while i < n
            invariant
                n == classes@.len() == transition@.len(),
                n > 0,
                i <= n,
                forall|j: int| 0 <= j < i ==> (#[trigger] transition@[j])@.len() == n,
            decreases n - i,
        {
            if transition[i].len() != n {
                return Err(DistError::BadMatrixShape);
            }
            i += 1;
        }
        if initial.len() != n {
            return Err(DistError::BadMatrixShape);
        }
        let mut i: usize = 0;
        while i < n
            invariant
                n == classes@.len() == transition@.len(),
                n > 0,
                i <= n,
                right_shape(n as nat, transition@, initial@),
                forall|j: int| 0 <= j < i ==> stochastic(#[trigger] transition@[j]@),
            decreases n - i,
        {
            let sum: u128 = sum_of(&transition[i]);
            if !close_to_one(sum) {
                return Err(DistError::RowNotStochastic { row: i, sum });
            }
            i += 1;
        }
        let sum: u128 = sum_of(&initial);
        if !close_to_one(sum) {
            return Err(DistError::InitialNotStochastic(sum));
        }
        Ok(LenDistribution { classes, transition, initial })
    }

    /// The distribution that profiles call `media-abr-v1`: many small and many large
    /// records, few in between, and large ones mostly in series.
    pub fn media_abr_v1() -> (d: Self)
        ensures
            d.well_formed(),
            d.spec_classes() == media_classes(),
            d.row(Some(0)) == media_row(Some(0)),
            d.row(Some(1)) == media_row(Some(1)),
            d.row(Some(2)) == media_row(Some(2)),
            d.row(None) == media_row(None),
    {
        let classes = vec![LenClass::new(40, 120), LenClass::new(200, 900), LenClass::new(1200, 1460)];
        // 0.30, 0.20, 0.50
        let small: Vec<u64> = vec![2702159776422298, 1801439850948198, 4503599627370496];
        // 0.35, 0.15, 0.50
        let medium: Vec<u64> = vec![3152519739159347, 1351079888211149, 4503599627370496];
        // 0.15, 0.10, 0.75
        let large: Vec<u64> = vec![1351079888211149, 900719925474099, 6755399441055744];
        // 0.25, 0.10, 0.65
        let initial: Vec<u64> = vec![2251799813685248, 900719925474099, 5854679515581645];
        proof {
            lemma_sum3(small@);
            lemma_sum3(medium@);
            lemma_sum3(large@);
            lemma_sum3(initial@);
        }
        let d = LenDistribution { classes, transition: vec![small, medium, large], initial };
        assert(d.classes@ =~= seq![
            LenClass { min: 40, max: 120 },
            LenClass { min: 200, max: 900 },
            LenClass { min: 1200, max: 1460 },
        ]);
        d
    }

    /// The classes.
    pub fn classes(&self) -> (c: &[LenClass])
        ensures
            c@ == self.spec_classes(),
    {
        self.classes.as_slice()
    }
}

/// Copies weights.
fn copy_weights(w: &Vec<u64>) -> (c: Vec<u64>)
    ensures
        c@ == w@,
{
    let mut c: Vec<u64> = Vec::new();
    let mut i: usize = 0;
    while i < w.len()
        invariant
            i <= w@.len(),
            c@ == w@.take(i as int),
        decreases w@.len() - i,
    {
        c.push(w[i]);
        i += 1;
        assert(c@ =~= w@.take(i as int));
    }
    assert(c@ =~= w@);
    c
}

impl Clone for LenDistribution {
    fn clone(&self) -> (d: Self)
        ensures
            d.spec_classes() == self.spec_classes(),
            d.row(None) == self.row(None),
            forall|i: usize|
                i < self.spec_classes().len() ==> #[trigger] d.row(Some(i)) == self.row(Some(i)),
    {
        proof {
            use_type_invariant(self);
        }
        let n: usize = self.classes.len();
        let mut classes: Vec<LenClass> = Vec::new();
        let mut transition: Vec<Vec<u64>> = Vec::new();
        let mut i: usize = 0;
        while i < n
            invariant
                n == self.classes@.len() == self.transition@.len(),
                i <= n,
                classes@ == self.classes@.take(i as int),
                transition@.len() == i,
                forall|j: int| 0 <= j < i ==> (#[trigger] transition@[j])@ == self.transition@[j]@,
            decreases n - i,
        {
            classes.push(self.classes[i]);
            transition.push(copy_weights(&self.transition[i]));
            i += 1;
            assert(classes@ =~= self.classes@.take(i as int));
        }
        assert(classes@ =~= self.classes@);
        let initial = copy_weights(&self.initial);
        assert forall|j: int| 0 <= j < n implies (#[trigger] transition@[j])@.len() == n && stochastic(
            transition@[j]@,
        ) by {
            assert(transition@[j]@ == self.row(Some(j as usize)));
        }
        LenDistribution { classes, transition, initial }
    }
}

proof fn lemma_sum3(w: Seq<u64>)
    requires
        w.len() == 3,
    ensures
        weight_sum(w, w.len()) == w[0] + w[1] + w[2],
{
    reveal_with_fuel(weight_sum, 4);
}

/// A sampler: a distribution and the class of the last length.
#[derive(Debug)]
pub struct LenSampler {
    dist: LenDistribution,
    state: Option<usize>,
}

/// What one draw of the chain does: from `pre` it goes to the class that the draw picks.
pub open spec fn stepped(pre: LenSampler, post: LenSampler, draw: u64) -> bool {
    &&& post.distribution() == pre.distribution()
    &&& post.spec_state() is Some
    &&& is_pick(
        pre.distribution().row(pre.spec_state()),
        draw,
        post.spec_state()->Some_0 as int,
    )
}

/// What `sample` draws: a word for the class, its upper 53 bits counting, and then a
/// length, unless the class has just one.
pub open spec fn sampled(
    pre: LenSampler,
    post: LenSampler,
    rng: StdRng,
    rng_after: StdRng,
    len: usize,
) -> bool {
    let (word, mid) = random::std_rng_word(rng);
    &&& stepped(pre, post, (word / 2048) as u64)
    &&& ({
        let class = post.current_class();
        if class.min == class.max {
            len == class.min && rng_after == mid
        } else {
            (len as u64, rng_after) == random::std_rng_range(
                mid,
                class.min as u64,
                class.max as u64,
            )
        }
    })
}

impl Clone for LenSampler {
    fn clone(&self) -> (s: Self)
        ensures
            s.spec_state() == self.spec_state(),
            s.distribution().spec_classes() == self.distribution().spec_classes(),
            s.distribution().row(None) == self.distribution().row(None),
            forall|i: usize|
                i < self.distribution().spec_classes().len() ==> #[trigger] s.distribution().row(
                    Some(i),
                ) == self.distribution().row(Some(i)),
    {
        proof {
            use_type_invariant(self);
        }
        let dist = self.dist.clone();
        proof {
            use_type_invariant(&dist);
        }
        LenSampler { dist, state: self.state }
    }
}

impl LenSampler {
    pub closed spec fn distribution(self) -> LenDistribution {
        self.dist
    }

    pub closed spec fn spec_state(self) -> Option<usize> {
        self.state
    }

    /// The class of the last length.
    pub open spec fn current_class(self) -> LenClass {
        self.distribution().spec_classes()[self.spec_state()->Some_0 as int]
    }

    /// Whether the state is one of the classes, or none.
    pub open spec fn well_formed(self) -> bool {
        &&& self.distribution().well_formed()
        &&& self.spec_state() matches Some(i) ==> i < self.distribution().spec_classes().len()
    }

    #[verifier::type_invariant]
    closed spec fn inv(self) -> bool {
        &&& self.well_formed()
        &&& self.dist.transition@.len() == self.dist.classes@.len()
    }

    /// A sampler that has drawn nothing.
    pub fn new(dist: LenDistribution) -> (s: Self)
        ensures
            s.well_formed(),
            s.distribution() == dist,
            s.spec_state() is None,
    {
        proof {
            use_type_invariant(&dist);
        }
        LenSampler { dist, state: None }
    }

    /// Goes on to the class that a draw below `ONE` picks.
    pub fn step(&mut self, draw: u64) -> (class: LenClass)
        ensures
            stepped(*old(self), *final(self), draw),
            final(self).well_formed(),
            class == final(self).current_class(),
            class.well_formed(),
    {
        proof {
            use_type_invariant(&*self);
        }
        let next: usize = match self.state {
            None => pick_index(&self.dist.initial, draw),
            Some(i) => {
                assert(self.dist.row(Some(i)).len() == self.dist.classes@.len());
                pick_index(&self.dist.transition[i], draw)
            },
        };
        self.state = Some(next);
        self.dist.classes[next]
    }

    /// The next length for a record.
    pub fn sample(&mut self, rng: &mut StdRng) -> (len: usize)
        ensures
            sampled(*old(self), *final(self), *old(rng), *final(rng), len),
            final(self).well_formed(),
            final(self).current_class().holds(len as int),
    {
        let word: u64 = random::draw_word(rng);
        let class = self.step(word / 2048);
        if class.min == class.max {
            class.min
        } else {
            random::draw_range(rng, class.min as u64, class.max as u64) as usize
        }
    }

    /// The class of the last length, by its number.
    pub fn state(&self) -> (s: Option<usize>)
        ensures
            s == self.spec_state(),
    {
        self.state
    }
}

/// The padding with which a payload and its header reach `target`: nothing if they are
/// that long already, and never more than 16 bits can say.
pub open spec fn padding(payload_len: int, overhead: int, target: int) -> int {
    let missing = target - payload_len - overhead;
    if missing < 0 {
        0
    } else if missing > u16::MAX {
        u16::MAX as int
    } else {
        missing
    }
}

/// How much padding brings a payload and its header to `target`.
pub fn pad_to_target(payload_len: usize, overhead: usize, target: usize) -> (pad: u16)
    requires
        payload_len + overhead <= usize::MAX,
    ensures
        pad == padding(payload_len as int, overhead as int, target as int),
{
    let base: usize = payload_len + overhead;
    if base >= target {
        return 0;
    }
    let missing: usize = target - base;
    if missing > 65535 {
        65535
    } else {
        missing as u16
    }
}

/// Padding hits the target exactly wherever that is possible.
pub proof fn law_padding_hits_target(payload_len: int, overhead: int, target: int)
    requires
        payload_len + overhead <= target <= payload_len + overhead + u16::MAX,
    ensures
        payload_len + overhead + padding(payload_len, overhead, target) == target,
{
}

/// Weights are added up one by one; they are a distribution if the sum is within a millionth
/// of the whole.
pub proof fn law_weights(w: Seq<u64>, k: nat)
    requires
        k < w.len(),
    ensures
        weight_sum(w, 0) == 0,
        weight_sum(w, k + 1) - weight_sum(w, k) == w[k as int],
        stochastic(w) <==> weight_sum(w, w.len()) - ONE <= STOCHASTIC_EPS && ONE - weight_sum(
            w,
            w.len(),
        ) <= STOCHASTIC_EPS,
        ONE == 0x20_0000_0000_0000,
        STOCHASTIC_EPS * 1_000_000 <= ONE < (STOCHASTIC_EPS + 1) * 1_000_000,
{
}

/// A draw picks the index in whose share of the whole it falls: not below the sum of the
/// weights before it, and below the sum with its own. A draw beyond all shares picks the
/// last.
pub proof fn law_pick_is_share(w: Seq<u64>, draw: u64, i: int)
    requires
        w.len() > 0,
    ensures
        0 <= i < w.len() && weight_sum(w, i as nat) <= draw < weight_sum(w, (i + 1) as nat)
            ==> is_pick(w, draw, i),
        weight_sum(w, w.len()) <= draw ==> (is_pick(w, draw, i) <==> i == w.len() - 1),
        is_pick(w, draw, i) && draw < weight_sum(w, w.len()) ==> weight_sum(w, i as nat) <= draw
            < weight_sum(w, (i + 1) as nat),
{
    if 0 <= i < w.len() {
        assert forall|j: int|
            0 < j <= i && weight_sum(w, i as nat) <= draw implies #[trigger] weight_sum(w, j as nat)
            <= draw by {
            lemma_weight_sum_grows(w, j as nat, i as nat);
        }
        if i > 0 && is_pick(w, draw, i) {
            assert(weight_sum(w, i as nat) <= draw);
        }
    }
    if weight_sum(w, w.len()) <= draw {
        assert forall|j: int| 0 < j <= w.len() implies #[trigger] weight_sum(w, j as nat) <= draw by {
            lemma_weight_sum_grows(w, j as nat, w.len());
        }
        if is_pick(w, draw, i) {
            assert(weight_sum(w, (i + 1) as nat) <= draw);
        }
    }
}

proof fn lemma_weight_sum_grows(w: Seq<u64>, j: nat, k: nat)
    requires
        j <= k,
    ensures
        weight_sum(w, j) <= weight_sum(w, k),
    decreases k,
{
    if j < k {
        lemma_weight_sum_grows(w, j, (k - 1) as nat);
    }
}

/// What a sampled length comes from: the upper 53 bits of a drawn word fall into the share of
/// the class that follows the last one, and the length is in that class: the only one there
/// is, or the next draw between its ends. The distribution stays.
pub proof fn law_sampled_length(
    pre: LenSampler,
    post: LenSampler,
    rng: StdRng,
    rng_after: StdRng,
    len: usize,
)
    requires
        sampled(pre, post, rng, rng_after, len),
    ensures
        ({
            let (word, mid) = random::std_rng_word(rng);
            let class = post.distribution().spec_classes()[post.spec_state()->Some_0 as int];
            &&& post.distribution() == pre.distribution()
            &&& post.spec_state() is Some
            &&& exists|draw: u64|
                2048 * draw <= word < 2048 * (draw + 1) && #[trigger] is_pick(
                    pre.distribution().row(pre.spec_state()),
                    draw,
                    post.spec_state()->Some_0 as int,
                )
            &&& class.min == class.max ==> len == class.min && rng_after == mid
            &&& class.min != class.max ==> len as u64 == random::std_rng_range(
                mid,
                class.min as u64,
                class.max as u64,
            ).0 && rng_after == random::std_rng_range(mid, class.min as u64, class.max as u64).1
        }),
{
    let (word, mid) = random::std_rng_word(rng);
    let draw = (word / 2048) as u64;
    assert(is_pick(
        pre.distribution().row(pre.spec_state()),
        draw,
        post.spec_state()->Some_0 as int,
    ));
}

/// Padding makes up exactly what is missing to the target, as far as 16 bits can say, and is
/// nothing where nothing is missing.
pub proof fn law_padding_makes_up(payload_len: int, overhead: int, target: int)
    ensures
        ({
            let pad = padding(payload_len, overhead, target);
            &&& 0 <= pad <= 0xffff
            &&& payload_len + overhead >= target ==> pad == 0
            &&& 0 <= target - payload_len - overhead <= 0xffff ==> payload_len + overhead + pad
                == target
            &&& target - payload_len - overhead > 0xffff ==> pad == 0xffff
        }),
{
}

/// The lengths of a class lie between its ends, both included.
pub proof fn law_class_holds_its_lengths(c: LenClass, len: int)
    ensures
        c.holds(len) <==> c.min <= len && len <= c.max,
        c.well_formed() <==> exists|n: int| #[trigger] c.holds(n),
{
    if c.well_formed() {
        assert(c.holds(c.min as int));
    }
}

/// Whether a weight stands for so many hundredths, rounded to the nearest.
pub open spec fn hundredths(w: u64, n: int) -> bool {
    -50 <= 100 * w - n * ONE <= 50
}

/// `media-abr-v1` has lengths of 40 to 120, of 200 to 900 and of 1200 to 1460 bytes. It begins
/// with 25, 10 and 65 parts of a hundred for them; behind a short one come 30, 20 and 50, behind
/// a middle one 35, 15 and 50, behind a long one 15, 10 and 75.
pub proof fn law_media_lengths(a: u64, b: u64, c: u64, state: Option<usize>)
    requires
        seq![a, b, c] == media_row(state),
    ensures
        media_classes().len() == 3,
        media_classes()[0].min == 40 && media_classes()[0].max == 120,
        media_classes()[1].min == 200 && media_classes()[1].max == 900,
        media_classes()[2].min == 1200 && media_classes()[2].max == 1460,
        state is None ==> hundredths(a, 25) && hundredths(b, 10) && hundredths(c, 65),
        state == Some(0usize) ==> hundredths(a, 30) && hundredths(b, 20) && hundredths(c, 50),
        state == Some(1usize) ==> hundredths(a, 35) && hundredths(b, 15) && hundredths(c, 50),
        state == Some(2usize) ==> hundredths(a, 15) && hundredths(b, 10) && hundredths(c, 75),
{
    let s = seq![a, b, c];
    assert(s[0] == a && s[1] == b && s[2] == c);
}

/// Weights are taken exactly if there is a class, a row for each and one at the start, each with
/// a weight for each class, and each row sums to one but for a rounding. Else one thing is said
/// of them, and no other: the first that is wrong, rows before the start.
pub proof fn law_weights_are_taken(
    n: nat,
    transition: Seq<Vec<u64>>,
    initial: Seq<u64>,
    row: int,
    why: Option<DistError>,
    other: Option<DistError>,
)
    requires
        dist_verdict(n, transition, initial, why),
    ensures
        dist_verdict(n, transition, initial, other) ==> other == why,
        why == Some(DistError::NoClasses) <==> n == 0,
        why is None ==> {
            &&& transition.len() == n && initial.len() == n
            &&& 0 <= row < n ==> transition[row]@.len() == n
            &&& 0 <= row < n ==> -STOCHASTIC_EPS <= weight_sum(transition[row]@, n) - ONE
                <= STOCHASTIC_EPS
            &&& -STOCHASTIC_EPS <= weight_sum(initial, n) - ONE <= STOCHASTIC_EPS
        },
        n > 0 && (transition.len() != n || initial.len() != n || 0 <= row < n
            && transition[row]@.len() != n) ==> why == Some(DistError::BadMatrixShape),
        why == Some(DistError::BadMatrixShape) ==> n > 0 && (transition.len() != n || initial.len()
            != n || exists|i: int| 0 <= i < n && (#[trigger] transition[i])@.len() != n),
        why matches Some(DistError::RowNotStochastic { row: bad, sum }) ==> {
            &&& bad < n && sum == weight_sum(transition[bad as int]@, n)
            &&& sum < ONE - STOCHASTIC_EPS || sum > ONE + STOCHASTIC_EPS
            &&& 0 <= row < bad ==> -STOCHASTIC_EPS <= weight_sum(transition[row]@, n) - ONE
                <= STOCHASTIC_EPS
        },
        why matches Some(DistError::InitialNotStochastic(sum)) ==> {
            &&& sum == weight_sum(initial, n)
            &&& sum < ONE - STOCHASTIC_EPS || sum > ONE + STOCHASTIC_EPS
            &&& 0 <= row < n ==> -STOCHASTIC_EPS <= weight_sum(transition[row]@, n) - ONE
                <= STOCHASTIC_EPS
        },
{
    if let Some(DistError::RowNotStochastic { row: bad, sum }) = why {
        if let Some(DistError::RowNotStochastic { row: bad2, sum: sum2 }) = other {
            if dist_verdict(n, transition, initial, other) {
                assert(stochastic(transition[bad as int]@) || bad2 <= bad);
                assert(stochastic(transition[bad2 as int]@) || bad <= bad2);
            }
        }
        assert(transition[bad as int]@.len() == n);
    }
    if 0 <= row < n && why is None {
        assert(transition[row]@.len() == n);
    }
}

} // verus!
