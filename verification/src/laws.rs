use vstd::prelude::*;

verus! {

/// One mutation of a stack, in the abstract model that the executable
/// operations are specified against: a push of a value, or a pop.
pub enum StackOp<T> {
    Push(T),
    Pop,
}

/// The model stack after one operation: a push appends its value on top,
/// a pop discards the top.
pub open spec fn apply_op<T>(s: Seq<T>, op: StackOp<T>) -> Seq<T> {
    match op {
        StackOp::Push(v) => s.push(v),
        StackOp::Pop => s.drop_last(),
    }
}

/// The model stack after a whole sequence of operations, applied in order.
pub open spec fn run_ops<T>(s: Seq<T>, ops: Seq<StackOp<T>>) -> Seq<T>
    decreases ops.len(),
{
    if ops.len() == 0 {
        s
    } else {
        run_ops(apply_op(s, ops.first()), ops.drop_first())
    }
}

/// How many of the operations are pushes.
pub open spec fn count_pushes<T>(ops: Seq<StackOp<T>>) -> nat
    decreases ops.len(),
{
    if ops.len() == 0 {
        0
    } else {
        (match ops.first() {
            StackOp::Push(_) => 1nat,
            StackOp::Pop => 0nat,
        }) + count_pushes(ops.drop_first())
    }
}

/// How many of the operations are pops.
pub open spec fn count_pops<T>(ops: Seq<StackOp<T>>) -> nat
    decreases ops.len(),
{
    if ops.len() == 0 {
        0
    } else {
        (match ops.first() {
            StackOp::Push(_) => 0nat,
            StackOp::Pop => 1nat,
        }) + count_pops(ops.drop_first())
    }
}

/// Whether every step of `ops`, run from `s` on a stack of capacity
/// `cap`, respects the operations' preconditions: no push on a full
/// stack and no pop on an empty one.
pub open spec fn admissible<T>(s: Seq<T>, ops: Seq<StackOp<T>>, cap: nat) -> bool
    decreases ops.len(),
{
    ops.len() == 0 || {
        &&& match ops.first() {
            StackOp::Push(_) => s.len() < cap,
            StackOp::Pop => s.len() > 0,
        }
        &&& admissible(apply_op(s, ops.first()), ops.drop_first(), cap)
    }
}

/// The sequence of pushes of the given values, in order.
pub open spec fn push_ops<T>(vs: Seq<T>) -> Seq<StackOp<T>> {
    vs.map_values(|v: T| StackOp::Push(v))
}

/// The values returned by `k` successive pops, in the order popped.
pub open spec fn pop_values<T>(s: Seq<T>, k: nat) -> Seq<T>
    decreases k,
{
    if k == 0 || s.len() == 0 {
        Seq::empty()
    } else {
        seq![s.last()] + pop_values(s.drop_last(), (k - 1) as nat)
    }
}

/// The stack remaining after `k` successive pops.
pub open spec fn pop_rest<T>(s: Seq<T>, k: nat) -> Seq<T>
    decreases k,
{
    if k == 0 || s.len() == 0 {
        s
    } else {
        pop_rest(s.drop_last(), (k - 1) as nat)
    }
}

/// Law: after any interleaving of pushes and pops in which every step
/// respects the bounds of a capacity-`cap` stack, the length equals the
/// starting length plus the number of pushes minus the number of pops.
pub proof fn lemma_len_after_ops<T>(s: Seq<T>, ops: Seq<StackOp<T>>, cap: nat)
    requires
        admissible(s, ops, cap),
    ensures
        run_ops(s, ops).len() == s.len() + count_pushes(ops) - count_pops(ops),
    decreases ops.len(),
{
    if ops.len() > 0 {
        lemma_len_after_ops(apply_op(s, ops.first()), ops.drop_first(), cap);
    }
}

/// Law: a pop immediately after a push returns the pushed value and
/// leaves the stack as it was before the push.
pub proof fn lemma_pop_after_push<T>(s: Seq<T>, v: T)
    ensures
        s.push(v).len() == s.len() + 1,
        s.push(v).last() == v,
        s.push(v).drop_last() == s,
{
    assert(s.push(v).drop_last() =~= s);
}

/// Pushing `vs` onto `s` is admissible whenever the result fits within
/// the capacity, and yields `s` followed by `vs`.
proof fn lemma_pushes_run<T>(s: Seq<T>, vs: Seq<T>, cap: nat)
    requires
        s.len() + vs.len() <= cap,
    ensures
        admissible(s, push_ops(vs), cap),
        run_ops(s, push_ops(vs)) == s + vs,
    decreases vs.len(),
{
    if vs.len() == 0 {
        assert(s + vs =~= s);
    } else {
        assert(push_ops(vs).first() == StackOp::Push(vs.first()));
        assert(push_ops(vs).drop_first() =~= push_ops(vs.drop_first()));
        lemma_pushes_run(s.push(vs.first()), vs.drop_first(), cap);
        assert(s.push(vs.first()) + vs.drop_first() =~= s + vs);
    }
}

/// Law: on an empty stack of capacity `cap`, pushing exactly `cap`
/// values respects every step's precondition and leaves all of them on
/// the stack in order, while one further push would not be admitted.
pub proof fn lemma_capacity_boundary<T>(vs: Seq<T>, v: T, cap: nat)
    requires
        vs.len() == cap,
    ensures
        admissible(Seq::empty(), push_ops(vs), cap),
        run_ops(Seq::empty(), push_ops(vs)) == vs,
        !admissible(vs, push_ops(seq![v]), cap),
{
    lemma_pushes_run(Seq::empty(), vs, cap);
    assert(Seq::empty() + vs =~= vs);
    assert(push_ops(seq![v]).first() == StackOp::Push(v));
    assert(push_ops(seq![v]).len() == 1);
}

/// Law: after pushing the values `vs` onto any stack `s`, popping them
/// all returns them in strict reverse of push order and leaves `s`.
pub proof fn lemma_lifo_order<T>(s: Seq<T>, vs: Seq<T>)
    ensures
        pop_values(s + vs, vs.len()) == vs.reverse(),
        pop_rest(s + vs, vs.len()) == s,
    decreases vs.len(),
{
    if vs.len() == 0 {
        assert(s + vs =~= s);
        assert(pop_values(s + vs, 0) =~= vs.reverse());
    } else {
        assert((s + vs).len() == s.len() + vs.len());
        assert((s + vs).last() == vs.last());
        assert((s + vs).drop_last() =~= s + vs.drop_last());
        lemma_lifo_order(s, vs.drop_last());
        assert(pop_values(s + vs, vs.len())
            =~= seq![vs.last()] + pop_values(s + vs.drop_last(), (vs.len() - 1) as nat));
        assert(vs.reverse() =~= seq![vs.last()] + vs.drop_last().reverse());
    }
}

} // verus!
