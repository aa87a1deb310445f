//! Bookkeeping of the multi-tensor (foreach) Adam and AdamW optimizers:
//! per-group hyper-parameter overrides, per-variable step counts, and the
//! bucketing of the variables that take a step.
use crate::device::Device;
use crate::kind::Kind;
use std::collections::HashMap;
use vstd::prelude::*;

verus! {

broadcast use vstd::std_specs::hash::group_hash_axioms;

/// A hyper-parameter with a value for every parameter group: a default,
/// and overrides for some groups.
pub struct GroupSetting<V> {
    default: V,
    overrides: HashMap<usize, V>,
}

impl<V: Copy> GroupSetting<V> {
    /// The value for group `g`.
    pub closed spec fn value(&self, g: usize) -> V {
        if self.overrides@.contains_key(g) {
            self.overrides@[g]
        } else {
            self.default
        }
    }

    /// The same value `v` for every group.
    pub fn new(v: V) -> (s: Self)
        ensures
            forall|g: usize| #[trigger] s.value(g) == v,
    {
        GroupSetting { default: v, overrides: HashMap::new() }
    }

    /// The value for group `g`: its override if it has one, the default
    /// otherwise.
    pub fn get(&self, g: usize) -> (v: V)
        ensures
            v == self.value(g),
    {
        match self.overrides.get(&g) {
            Some(v) => *v,
            None => self.default,
        }
    }

    /// Sets the value of every group, clearing the per-group overrides.
    pub fn set_all(&mut self, v: V)
        ensures
            forall|g: usize| #[trigger] final(self).value(g) == v,
    {
        self.default = v;
        self.overrides.clear();
    }

    /// Sets the value of group `g`, leaving the other groups on their
    /// current value.
    pub fn set_group(&mut self, g: usize, v: V)
        ensures
            final(self).value(g) == v,
            forall|h: usize| h != g ==> #[trigger] final(self).value(h) == old(self).value(h),
    {
        self.overrides.insert(g, v);
    }
}

/// One variable taking an optimizer step.
#[derive(Debug, Clone, Copy, PartialEq, Eq, Structural)]
pub struct StepUpdate {
    /// The index of the variable among the trainable variables.
    pub index: usize,
    /// The step count after this step, used for the bias corrections.
    pub step: i64,
    /// Whether this is the variable's first step, so that its moment
    /// estimates have to be allocated.
    pub fresh: bool,
}

/// The step count of a variable after one more step.
pub open spec fn next_count(c: Option<i64>) -> i64 {
    match c {
        Some(s) => (s + 1) as i64,
        None => 1,
    }
}

/// The updates of a step over the first `n` variables: the variables with
/// a gradient, in order.
pub open spec fn step_updates(counts: Seq<Option<i64>>, has_grad: Seq<bool>, n: int) -> Seq<
    StepUpdate,
>
    decreases n,
{
    if n <= 0 {
        Seq::empty()
    } else {
        let rest = step_updates(counts, has_grad, n - 1);
        if has_grad[n - 1] {
            let c = if n - 1 < counts.len() { counts[n - 1] } else { None };
            rest.push(StepUpdate { index: (n - 1) as usize, step: next_count(c), fresh: c is None })
        } else {
            rest
        }
    }
}

/// The step counts of the trainable variables; `None` for a variable that
/// never had a gradient, and so has no optimizer state yet.
pub struct StepCounter {
    counts: Vec<Option<i64>>,
}

impl StepCounter {
    /// The step count of every variable.
    pub closed spec fn counts(&self) -> Seq<Option<i64>> {
        self.counts@
    }

    /// No variable has taken a step yet.
    pub fn new() -> (c: Self)
        ensures
            c.counts() == Seq::<Option<i64>>::empty(),
    {
        StepCounter { counts: Vec::new() }
    }

    /// Takes one optimizer step: `has_grad[i]` tells whether variable `i`
    /// received a gradient. Variables that appeared since the last step
    /// get no count; every variable with a gradient counts one more step,
    /// starting from 1; the others are skipped. Returns the variables that
    /// take the step, in order.
    pub fn advance(&mut self, has_grad: &[bool]) -> (updates: Vec<StepUpdate>)
        requires
            forall|i: int|
                0 <= i < old(self).counts().len() ==> (#[trigger] old(self).counts()[i] matches Some(
                    s,
                ) ==> s < i64::MAX),
        ensures
            final(self).counts().len() == if old(self).counts().len() < has_grad@.len() {
                has_grad@.len()
            } else {
                old(self).counts().len()
            },
            forall|i: int|
                0 <= i < final(self).counts().len() ==> #[trigger] final(self).counts()[i] == if i
                    < has_grad@.len() && has_grad@[i] {
                    Some(
                        next_count(
                            if i < old(self).counts().len() {
                                old(self).counts()[i]
                            } else {
                                None
                            },
                        ),
                    )
                } else if i < old(self).counts().len() {
                    old(self).counts()[i]
                } else {
                    None
                },
            updates@ == step_updates(old(self).counts(), has_grad@, has_grad@.len() as int),
    {
        let ghost old_counts = self.counts@;
        while self.counts.len() < has_grad.len()
            invariant
                self.counts@.len() <= has_grad@.len() || self.counts@ == old_counts,
                old_counts.len() <= self.counts@.len(),
                forall|i: int|
                    0 <= i < self.counts@.len() ==> #[trigger] self.counts@[i] == if i
                        < old_counts.len() {
                        old_counts[i]
                    } else {
                        None
                    },
                self.counts@.len() == old_counts.len() || self.counts@.len() <= has_grad@.len(),
            decreases has_grad@.len() - self.counts@.len(),
        {
            self.counts.push(None);
        }
        let ghost resized = self.counts@;
        let mut updates: Vec<StepUpdate> = Vec::new();
        let mut i: usize = 0;
        while i < has_grad.len()
            invariant
                i <= has_grad@.len(),
                has_grad@.len() <= resized.len(),
                self.counts@.len() == resized.len(),
                forall|k: int|
                    0 <= k < resized.len() ==> #[trigger] resized[k] == if k < old_counts.len() {
                        old_counts[k]
                    } else {
                        None
                    },
                forall|k: int|
                    0 <= k < old_counts.len() ==> (#[trigger] old_counts[k] matches Some(s) ==> s
                        < i64::MAX),
                forall|k: int|
                    0 <= k < resized.len() ==> #[trigger] self.counts@[k] == if k < i
                        && has_grad@[k] {
                        Some(next_count(resized[k]))
                    } else {
                        resized[k]
                    },
                updates@ == step_updates(old_counts, has_grad@, i as int),
            decreases has_grad@.len() - i,
        {
            if has_grad[i] {
                let c = self.counts[i];
                let (step, fresh) = match c {
                    Some(s) => (s + 1, false),
                    None => (1i64, true),
                };
                self.counts.set(i, Some(step));
                updates.push(StepUpdate { index: i, step, fresh });
            }
            i += 1;
        }
        updates
    }
}

/// Where the state of a trainable variable lives: its parameter group, and
/// the device and kind its optimizer state was allocated with.
#[derive(Debug, Clone, Copy, PartialEq, Eq, Structural)]
pub struct VarPlacement {
    pub group: usize,
    pub device: Device,
    pub kind: Kind,
}

/// What the variables of one fused optimizer call share: parameter group,
/// device, kind and step count.
#[derive(Debug, Clone, Copy, PartialEq, Eq, Structural)]
pub struct BucketKey {
    pub group: usize,
    pub device: Device,
    pub kind: Kind,
    pub step: i64,
}

/// The variables of one fused optimizer call.
pub struct Bucket {
    pub key: BucketKey,
    /// The indices of the variables, in the order of the updates.
    pub indices: Vec<usize>,
}

/// The bucket key of an update.
pub open spec fn update_key(u: StepUpdate, vars: Seq<VarPlacement>) -> BucketKey {
    let v = vars[u.index as int];
    BucketKey { group: v.group, device: v.device, kind: v.kind, step: u.step }
}

/// The indices of the updates of key `key`, in order.
pub open spec fn indices_with_key(
    updates: Seq<StepUpdate>,
    vars: Seq<VarPlacement>,
    key: BucketKey,
) -> Seq<usize>
    decreases updates.len(),
{
    if updates.len() == 0 {
        Seq::empty()
    } else {
        let rest = indices_with_key(updates.drop_last(), vars, key);
        if update_key(updates.last(), vars) == key {
            rest.push(updates.last().index)
        } else {
            rest
        }
    }
}

/// Whether some update has key `key`.
pub open spec fn has_key(updates: Seq<StepUpdate>, vars: Seq<VarPlacement>, key: BucketKey) -> bool {
    exists|j: int| 0 <= j < updates.len() && #[trigger] update_key(updates[j], vars) == key
}

proof fn lemma_indices_with_key_empty(
    updates: Seq<StepUpdate>,
    vars: Seq<VarPlacement>,
    key: BucketKey,
)
    ensures
        indices_with_key(updates, vars, key).len() == 0 <==> !has_key(updates, vars, key),
    decreases updates.len(),
{
    if updates.len() > 0 {
        let init = updates.drop_last();
        lemma_indices_with_key_empty(init, vars, key);
        if has_key(init, vars, key) {
            let j = choose|j: int| 0 <= j < init.len() && #[trigger] update_key(init[j], vars) == key;
            assert(update_key(updates[j], vars) == key);
        }
        if has_key(updates, vars, key) && update_key(updates.last(), vars) != key {
            let j = choose|j: int|
                0 <= j < updates.len() && #[trigger] update_key(updates[j], vars) == key;
            assert(j < updates.len() - 1);
            assert(update_key(init[j], vars) == key);
        }
        if update_key(updates.last(), vars) == key {
            assert(update_key(updates[updates.len() - 1], vars) == key);
        }
    }
}

fn key_of(u: &StepUpdate, vars: &[VarPlacement]) -> (k: BucketKey)
    requires
        u.index < vars@.len(),
    ensures
        k == update_key(*u, vars@),
{
    let v = vars[u.index];
    BucketKey { group: v.group, device: v.device, kind: v.kind, step: u.step }
}

/// The indices of the updates of key `key`, in order.
fn collect_indices(updates: &[StepUpdate], vars: &[VarPlacement], key: BucketKey) -> (r: Vec<
    usize,
>)
    requires
        forall|j: int| 0 <= j < updates@.len() ==> #[trigger] updates@[j].index < vars@.len(),
    ensures
        r@ == indices_with_key(updates@, vars@, key),
{
    let mut r: Vec<usize> = Vec::new();
    let mut k: usize = 0;
    while k < updates.len()
        invariant
            k <= updates@.len(),
            forall|j: int| 0 <= j < updates@.len() ==> #[trigger] updates@[j].index < vars@.len(),
            r@ == indices_with_key(updates@.take(k as int), vars@, key),
        decreases updates@.len() - k,
    {
        assert(updates@.take(k + 1).drop_last() =~= updates@.take(k as int));
        assert(updates@.take(k + 1).last() == updates@[k as int]);
        if key_of(&updates[k], vars) == key {
            r.push(updates[k].index);
        }
        k += 1;
    }
    assert(updates@.take(updates@.len() as int) =~= updates@);
    r
}

/// Groups the variables that take a step into the fused optimizer calls:
/// one bucket per parameter group, device, kind and step count that occurs,
/// holding the indices of its variables in the order of `updates`.
pub fn bucket_updates(updates: &[StepUpdate], vars: &[VarPlacement]) -> (buckets: Vec<Bucket>)
    requires
        forall|j: int| 0 <= j < updates@.len() ==> #[trigger] updates@[j].index < vars@.len(),
    ensures
        forall|b: int|
            0 <= b < buckets@.len() ==> (#[trigger] buckets@[b]).indices@ == indices_with_key(
                updates@,
                vars@,
                buckets@[b].key,
            ),
        forall|b: int| 0 <= b < buckets@.len() ==> (#[trigger] buckets@[b]).indices@.len() > 0,
        forall|b: int, c: int|
            0 <= b < c < buckets@.len() ==> (#[trigger] buckets@[b]).key != (#[trigger] buckets@[
                c
            ]).key,
        forall|j: int|
            0 <= j < updates@.len() ==> exists|b: int|
                0 <= b < buckets@.len() && (#[trigger] buckets@[b]).key == update_key(
                    #[trigger] updates@[j],
                    vars@,
                ),
{
    let mut keys: Vec<BucketKey> = Vec::new();
    let mut k: usize = 0;
    while k < updates.len()
        invariant
            k <= updates@.len(),
            forall|j: int| 0 <= j < updates@.len() ==> #[trigger] updates@[j].index < vars@.len(),
            forall|b: int, c: int| 0 <= b < c < keys@.len() ==> keys@[b] != keys@[c],
            forall|b: int| 0 <= b < keys@.len() ==> has_key(updates@, vars@, #[trigger] keys@[b]),
            forall|j: int|
                0 <= j < k ==> exists|b: int|
                    0 <= b < keys@.len() && keys@[b] == update_key(#[trigger] updates@[j], vars@),
        decreases updates@.len() - k,
    {
        let key = key_of(&updates[k], vars);
        let mut b: usize = 0;
        let mut found = false;
        while b < keys.len()
            invariant
                b <= keys@.len(),
                found ==> b < keys@.len() && keys@[b as int] == key,
                !found ==> forall|c: int| 0 <= c < b ==> keys@[c] != key,
            ensures
                found ==> b < keys@.len() && keys@[b as int] == key,
                !found ==> forall|c: int| 0 <= c < keys@.len() ==> keys@[c] != key,
            decreases keys@.len() - b,
        {
            if keys[b] == key {
                found = true;
                break;
            }
            b += 1;
        }
        let ghost witness: int = b as int;
        let ghost old_keys = keys@;
        if !found {
            assert(update_key(updates@[k as int], vars@) == key);
            keys.push(key);
            proof {
                witness = keys@.len() - 1;
            }
        }
        proof {
            assert forall|j: int| 0 <= j < k + 1 implies exists|c: int|
                0 <= c < keys@.len() && keys@[c] == update_key(#[trigger] updates@[j], vars@) by {
                if j < k {
                    let c = choose|c: int|
                        0 <= c < old_keys.len() && old_keys[c] == update_key(updates@[j], vars@);
                    assert(keys@[c] == old_keys[c]);
                } else {
                    assert(keys@[witness] == update_key(updates@[j], vars@));
                }
            }
        }
        k += 1;
    }
    let mut buckets: Vec<Bucket> = Vec::new();
    let mut b: usize = 0;
    while b < keys.len()
        invariant
            b <= keys@.len(),
            buckets@.len() == b,
            forall|j: int| 0 <= j < updates@.len() ==> #[trigger] updates@[j].index < vars@.len(),
            forall|c: int| 0 <= c < b ==> (#[trigger] buckets@[c]).key == keys@[c],
            forall|c: int|
                0 <= c < b ==> (#[trigger] buckets@[c]).indices@ == indices_with_key(
                    updates@,
                    vars@,
                    keys@[c],
                ),
        decreases keys@.len() - b,
    {
        let indices = collect_indices(updates, vars, keys[b]);
        buckets.push(Bucket { key: keys[b], indices });
        b += 1;
    }
    proof {
        assert forall|c: int| 0 <= c < buckets@.len() implies (#[trigger] buckets@[c]).indices@.len()
            > 0 by {
            lemma_indices_with_key_empty(updates@, vars@, keys@[c]);
        }
        assert forall|j: int| 0 <= j < updates@.len() implies exists|c: int|
            0 <= c < buckets@.len() && (#[trigger] buckets@[c]).key == update_key(
                #[trigger] updates@[j],
                vars@,
            ) by {
            let c = choose|c: int| 0 <= c < keys@.len() && keys@[c] == update_key(updates@[j], vars@);
            assert(buckets@[c].key == keys@[c]);
        }
    }
    buckets
}

/// Law: the indices of the updates of a step increase strictly, and stay
/// below the number of variables: no variable takes a step twice.
pub proof fn lemma_step_updates_increasing(counts: Seq<Option<i64>>, has_grad: Seq<bool>, n: int)
    requires
        n <= usize::MAX,
    ensures
        forall|a: int, b: int|
            0 <= a < b < step_updates(counts, has_grad, n).len() ==> (#[trigger] step_updates(
                counts,
                has_grad,
                n,
            )[a]).index < (#[trigger] step_updates(counts, has_grad, n)[b]).index,
        forall|a: int|
            0 <= a < step_updates(counts, has_grad, n).len() ==> (#[trigger] step_updates(
                counts,
                has_grad,
                n,
            )[a]).index < n,
    decreases n,
{
    if n > 0 {
        lemma_step_updates_increasing(counts, has_grad, n - 1);
        let rest = step_updates(counts, has_grad, n - 1);
        let all = step_updates(counts, has_grad, n);
        if has_grad[n - 1] {
            assert(all.len() == rest.len() + 1);
            assert(all[rest.len() as int].index == n - 1);
            assert forall|a: int| 0 <= a < rest.len() implies all[a] == rest[a] by {}
        } else {
            assert(all == rest);
        }
    }
}

proof fn lemma_indices_come_from_updates(
    updates: Seq<StepUpdate>,
    vars: Seq<VarPlacement>,
    key: BucketKey,
    i: usize,
)
    requires
        indices_with_key(updates, vars, key).contains(i),
    ensures
        exists|a: int| 0 <= a < updates.len() && (#[trigger] updates[a]).index == i,
    decreases updates.len(),
{
    let init = updates.drop_last();
    let rest = indices_with_key(init, vars, key);
    if rest.contains(i) {
        lemma_indices_come_from_updates(init, vars, key, i);
        let a = choose|a: int| 0 <= a < init.len() && (#[trigger] init[a]).index == i;
        assert(updates[a].index == i);
    } else {
        assert(updates[updates.len() - 1].index == i);
    }
}

/// Law: when no variable takes the step twice, a variable that takes it
/// lands in exactly one bucket, the one of its group, device, kind and
/// step count.
pub proof fn lemma_update_in_one_bucket(
    updates: Seq<StepUpdate>,
    vars: Seq<VarPlacement>,
    j: int,
    key: BucketKey,
)
    requires
        0 <= j < updates.len(),
        forall|a: int, b: int|
            0 <= a < b < updates.len() ==> (#[trigger] updates[a]).index != (#[trigger] updates[
                b
            ]).index,
    ensures
        indices_with_key(updates, vars, key).contains(updates[j].index) <==> key == update_key(
            updates[j],
            vars,
        ),
    decreases updates.len(),
{
    let init = updates.drop_last();
    let last = updates.last();
    let rest = indices_with_key(init, vars, key);
    if j < updates.len() - 1 {
        assert(init[j] == updates[j]);
        lemma_update_in_one_bucket(init, vars, j, key);
        if update_key(last, vars) == key {
            assert(updates[j].index != updates[updates.len() - 1].index);
            assert(rest.push(last.index).contains(updates[j].index) ==> rest.contains(
                updates[j].index,
            )) by {
                if rest.push(last.index).contains(updates[j].index) {
                    let p = choose|p: int|
                        0 <= p < rest.push(last.index).len() && rest.push(last.index)[p]
                            == updates[j].index;
                    if p < rest.len() {
                        assert(rest[p] == updates[j].index);
                    }
                }
            }
            if rest.contains(updates[j].index) {
                let p = choose|p: int| 0 <= p < rest.len() && rest[p] == updates[j].index;
                assert(rest.push(last.index)[p] == updates[j].index);
            }
        }
    } else {
        if rest.contains(last.index) {
            lemma_indices_come_from_updates(init, vars, key, last.index);
            let a = choose|a: int| 0 <= a < init.len() && (#[trigger] init[a]).index == last.index;
            assert(updates[a].index == updates[updates.len() - 1].index);
        }
        if update_key(last, vars) == key {
            assert(rest.push(last.index)[rest.len() as int] == last.index);
        } else {
            assert(!rest.contains(last.index));
        }
    }
}

/// The hyper-parameters of a multi-tensor Adam or AdamW optimizer, of any
/// number type `V`: learning rate, `beta1` (what `set_momentum` sets) and
/// weight decay per parameter group, and `beta2` and `eps` shared by all.
pub struct ForeachHyper<V> {
    pub lr: GroupSetting<V>,
    pub beta1: GroupSetting<V>,
    pub beta2: V,
    pub wd: GroupSetting<V>,
    pub eps: V,
    pub amsgrad: bool,
    /// Whether the weight decay is AdamW's decoupled one, rather than
    /// Adam's L2 term.
    pub decoupled_wd: bool,
}

/// The arguments of one fused optimizer call.
#[derive(Debug, Clone, Copy, PartialEq, Eq)]
pub struct FusedStep<V> {
    pub step: i64,
    pub lr: V,
    pub beta1: V,
    pub beta2: V,
    pub wd: V,
    pub eps: V,
    pub amsgrad: bool,
    pub decoupled_wd: bool,
}

impl<V: Copy> ForeachHyper<V> {
    /// The arguments of the fused call of the bucket of key `key`: the
    /// bucket's step count, the learning rate, `beta1` and weight decay of
    /// its parameter group, and the shared settings.
    pub fn fused_step(&self, key: &BucketKey) -> (f: FusedStep<V>)
        ensures
            f.step == key.step,
            f.lr == self.lr.value(key.group),
            f.beta1 == self.beta1.value(key.group),
            f.wd == self.wd.value(key.group),
            f.beta2 == self.beta2,
            f.eps == self.eps,
            f.amsgrad == self.amsgrad,
            f.decoupled_wd == self.decoupled_wd,
    {
        FusedStep {
            step: key.step,
            lr: self.lr.get(key.group),
            beta1: self.beta1.get(key.group),
            beta2: self.beta2,
            wd: self.wd.get(key.group),
            eps: self.eps,
            amsgrad: self.amsgrad,
            decoupled_wd: self.decoupled_wd,
        }
    }
}

} // verus!
