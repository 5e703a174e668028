//! Expression trees: the node kinds, the owning slot, typing, pre-order size
//! and whole-tree addressing by index and by path.

use vstd::prelude::*;

use crate::values::{Ty, Value};

verus! {

/// A constant of any value type.
#[derive(Clone, Copy, Debug, PartialEq, Eq)]
pub struct ConstExpr {
    pub value: Value,
}

impl ConstExpr {
    pub fn new(value: Value) -> (r: ConstExpr)
        ensures
            r.value == value,
    {
        ConstExpr { value }
    }
}

/// A reference to the evaluating agent.
#[derive(Clone, Copy, Debug, PartialEq, Eq)]
pub struct GetSelfExpr;

/// A reference to the nearest other agent.
#[derive(Clone, Copy, Debug, PartialEq, Eq)]
pub struct DichtsteVisExpr;

/// The energy of the referenced agent; one child: the reference.
#[derive(Clone, Copy, Debug, PartialEq, Eq)]
pub struct FishEnergyExpr;

/// The colour of the referenced agent; one child: the reference.
#[derive(Clone, Copy, Debug, PartialEq, Eq)]
pub struct FishColorExpr;

/// The unit vector from one agent to another; children: origin, target.
#[derive(Clone, Copy, Debug, PartialEq, Eq)]
pub struct FishDirectionExpr;

/// The cosine similarity of two colours; children: left, right.
#[derive(Clone, Copy, Debug, PartialEq, Eq)]
pub struct ColorSimilarityExpr;

/// Strict order comparison of two values of type `ty`; children: left, right.
#[derive(Clone, Copy, Debug, PartialEq, Eq)]
pub struct LessThenExpr {
    pub ty: Ty,
}

/// The sum of two values of type `ty`; children: left, right.
#[derive(Clone, Copy, Debug, PartialEq, Eq)]
pub struct AddExpr {
    pub ty: Ty,
}

/// A fixed-point product: of two scalars when `ty` is `Num`, of a fraction
/// and a vector when `ty` is `Vector`; children: left, right.
#[derive(Clone, Copy, Debug, PartialEq, Eq)]
pub struct MulExpr {
    pub ty: Ty,
}

/// The negation of a value of type `ty`; one child.
#[derive(Clone, Copy, Debug, PartialEq, Eq)]
pub struct NegateExpr {
    pub ty: Ty,
}

/// Boolean negation; one child.
#[derive(Clone, Copy, Debug, PartialEq, Eq)]
pub struct NotExpr;

/// A conditional of type `ty`; children: condition, consequent, alternative.
#[derive(Clone, Copy, Debug, PartialEq, Eq)]
pub struct IfExpr {
    pub ty: Ty,
}

/// `Action::Move`; one child: the direction.
#[derive(Clone, Copy, Debug, PartialEq, Eq)]
pub struct MoveExpr;

/// `Action::SetVelocity`; children: target velocity, maximal energy ratio.
#[derive(Clone, Copy, Debug, PartialEq, Eq)]
pub struct SetVelocityExpr;

/// `Action::Split`; children: impulse, mass fraction.
#[derive(Clone, Copy, Debug, PartialEq, Eq)]
pub struct SplitExpr;

/// The kind of one node, with the data it carries besides its children.
#[derive(Clone, Copy, Debug, PartialEq, Eq)]
pub enum Expr {
    Const(ConstExpr),
    GetSelf(GetSelfExpr),
    Nearest(DichtsteVisExpr),
    Energy(FishEnergyExpr),
    ColorOf(FishColorExpr),
    Direction(FishDirectionExpr),
    Similarity(ColorSimilarityExpr),
    LessThan(LessThenExpr),
    Add(AddExpr),
    Mul(MulExpr),
    Negate(NegateExpr),
    Not(NotExpr),
    If(IfExpr),
    Move(MoveExpr),
    SetVelocity(SetVelocityExpr),
    Split(SplitExpr),
}

/// The types of a node kind's children, in declaration order.
pub open spec fn arg_tys(e: Expr) -> Seq<Ty> {
    match e {
        Expr::Const(_) | Expr::GetSelf(_) | Expr::Nearest(_) => seq![],
        Expr::Energy(_) | Expr::ColorOf(_) => seq![Ty::Ref],
        Expr::Direction(_) => seq![Ty::Ref, Ty::Ref],
        Expr::Similarity(_) => seq![Ty::Color, Ty::Color],
        Expr::LessThan(k) => seq![k.ty, k.ty],
        Expr::Add(k) => seq![k.ty, k.ty],
        Expr::Mul(k) => if k.ty == Ty::Vector {
            seq![Ty::Frac, Ty::Vector]
        } else {
            seq![Ty::Num, Ty::Num]
        },
        Expr::Negate(k) => seq![k.ty],
        Expr::Not(_) => seq![Ty::Bool],
        Expr::If(k) => seq![Ty::Bool, k.ty, k.ty],
        Expr::Move(_) => seq![Ty::Vector],
        Expr::SetVelocity(_) | Expr::Split(_) => seq![Ty::Vector, Ty::Frac],
    }
}

/// The declared arity of a node kind.
pub open spec fn arity(e: Expr) -> nat {
    arg_tys(e).len()
}

/// The type of the value a node kind produces.
pub open spec fn result_ty(e: Expr) -> Ty {
    match e {
        Expr::Const(c) => c.value.ty(),
        Expr::GetSelf(_) | Expr::Nearest(_) => Ty::Ref,
        Expr::Energy(_) => Ty::Num,
        Expr::Mul(k) => k.ty,
        Expr::ColorOf(_) => Ty::Color,
        Expr::Direction(_) => Ty::Vector,
        Expr::Similarity(_) => Ty::Frac,
        Expr::LessThan(_) | Expr::Not(_) => Ty::Bool,
        Expr::Add(k) => k.ty,
        Expr::Negate(k) => k.ty,
        Expr::If(k) => k.ty,
        Expr::Move(_) | Expr::SetVelocity(_) | Expr::Split(_) => Ty::Act,
    }
}

/// The operation is defined on the node kind's type: constants hold
/// in-range values and no agent reference; comparison is over ordered types;
/// sums and negations are over scalars and vectors.
pub open spec fn kind_ok(e: Expr) -> bool {
    match e {
        Expr::Const(c) => c.value.wf() && c.value.ty() != Ty::Ref,
        Expr::LessThan(k) => k.ty == Ty::Bool || k.ty == Ty::Num || k.ty == Ty::Frac,
        Expr::Add(k) => k.ty == Ty::Num || k.ty == Ty::Vector,
        Expr::Negate(k) => k.ty == Ty::Num || k.ty == Ty::Vector,
        Expr::Mul(k) => k.ty == Ty::Num || k.ty == Ty::Vector,
        _ => true,
    }
}

/// The mathematical form of an expression tree.
pub ghost struct Tree {
    pub expr: Expr,
    pub children: Seq<Tree>,
}

impl Tree {
    /// The type of the value this tree produces.
    pub open spec fn ty(self) -> Ty {
        result_ty(self.expr)
    }

    /// Well-typed at `ty`: every node's kind is defined on its type, its
    /// child count equals its declared arity, and each child is well-typed at
    /// the type the kind declares for it.
    pub open spec fn wf(self, ty: Ty) -> bool
        decreases self,
    {
        &&& kind_ok(self.expr)
        &&& result_ty(self.expr) == ty
        &&& self.children.len() == arity(self.expr)
        &&& forall|i: int|
            0 <= i < self.children.len() ==> (#[trigger] self.children[i]).wf(arg_tys(self.expr)[i])
    }
}

/// The number of nodes of a tree.
pub open spec fn size(t: Tree) -> nat
    decreases t,
{
    1 + sum_sizes(t.children)
}

/// The total number of nodes of a sequence of trees.
pub open spec fn sum_sizes(cs: Seq<Tree>) -> nat
    decreases cs,
{
    if cs.len() == 0 {
        0
    } else {
        sum_sizes(cs.drop_last()) + size(cs.last())
    }
}

/// The number of levels of a tree: one for a leaf.
pub open spec fn height(t: Tree) -> nat
    decreases t,
{
    1 + max_height(t.children)
}

/// The largest height in a sequence of trees; zero when it is empty.
pub open spec fn max_height(cs: Seq<Tree>) -> nat
    decreases cs,
{
    if cs.len() == 0 {
        0
    } else {
        let a = max_height(cs.drop_last());
        let b = height(cs.last());
        if a >= b {
            a
        } else {
            b
        }
    }
}

/// A sequence of child indices, outermost first, leads from the root to a node.
pub open spec fn valid_path(t: Tree, p: Seq<usize>) -> bool
    decreases p.len(),
{
    p.len() == 0 || (p[0] < t.children.len() && valid_path(
        t.children[p[0] as int],
        p.drop_first(),
    ))
}

/// The subtree that a path leads to.
pub open spec fn node_at(t: Tree, p: Seq<usize>) -> Tree
    decreases p.len(),
{
    if p.len() == 0 || p[0] >= t.children.len() {
        t
    } else {
        node_at(t.children[p[0] as int], p.drop_first())
    }
}

/// The pre-order index of the node a path leads to: the root is 0, and each
/// child's subtree takes the next indices in child order.
pub open spec fn index_of(t: Tree, p: Seq<usize>) -> nat
    decreases p.len(),
{
    if p.len() == 0 || p[0] >= t.children.len() {
        0
    } else {
        1 + sum_sizes(t.children.take(p[0] as int)) + index_of(
            t.children[p[0] as int],
            p.drop_first(),
        )
    }
}

/// The tree with the node at `p` replaced by `n`, all else unchanged.
pub open spec fn replace_tree(t: Tree, p: Seq<usize>, n: Tree) -> Tree
    decreases p.len(),
{
    if p.len() == 0 || p[0] >= t.children.len() {
        n
    } else {
        Tree {
            expr: t.expr,
            children: t.children.update(
                p[0] as int,
                replace_tree(t.children[p[0] as int], p.drop_first(), n),
            ),
        }
    }
}

/// Exclusive ownership of one node and, through its children, of the whole
/// subtree below it.
#[derive(Debug, PartialEq, Eq)]
pub struct ExprSlot {
    pub expr: Expr,
    pub children: Vec<ExprSlot>,
}

/// The tree that a slot owns.
pub open spec fn tree_of(s: ExprSlot) -> Tree
    decreases s,
{
    Tree {
        expr: s.expr,
        children: Seq::new(
            s.children.len() as nat,
            |i: int|
                if 0 <= i < s.children.len() {
                    tree_of(s.children@[i])
                } else {
                    Tree { expr: s.expr, children: seq![] }
                },
        ),
    }
}

impl View for ExprSlot {
    type V = Tree;

    open spec fn view(&self) -> Tree {
        tree_of(*self)
    }
}

/// `n`, capped at the largest `u64`.
pub open spec fn cap_u64(n: nat) -> nat {
    if n > u64::MAX {
        u64::MAX as nat
    } else {
        n
    }
}

/// The prefix sums of subtree sizes grow by one subtree at a time.
pub proof fn lemma_sum_take_step(cs: Seq<Tree>, k: int)
    requires
        0 <= k < cs.len(),
    ensures
        sum_sizes(cs.take(k + 1)) == sum_sizes(cs.take(k)) + size(cs[k]),
{
    assert(cs.take(k + 1).drop_last() =~= cs.take(k));
    assert(cs.take(k + 1).last() == cs[k]);
}

/// The prefix sums of subtree sizes are monotone.
pub proof fn lemma_sum_take_mono(cs: Seq<Tree>, j: int, k: int)
    requires
        0 <= j <= k <= cs.len(),
    ensures
        sum_sizes(cs.take(j)) <= sum_sizes(cs.take(k)),
        sum_sizes(cs.take(k)) <= sum_sizes(cs),
    decreases cs.len() - j,
{
    assert(cs.take(cs.len() as int) =~= cs);
    if j < cs.len() {
        lemma_sum_take_step(cs, j);
        lemma_sum_take_mono(cs, j + 1, cs.len() as int);
        if j < k {
            lemma_sum_take_mono(cs, j + 1, k);
        } else {
            lemma_sum_take_mono(cs, j + 1, cs.len() as int);
        }
    }
}

/// The children of a well-typed tree are well-typed at their declared types.
pub proof fn lemma_wf_child(t: Tree, ty: Ty, k: int)
    requires
        t.wf(ty),
        0 <= k < t.children.len(),
    ensures
        t.children[k].wf(arg_tys(t.expr)[k]),
        t.children[k].wf(t.children[k].ty()),
        arg_tys(t.expr)[k] == t.children[k].ty(),
{
    assert(t.children[k].wf(arg_tys(t.expr)[k]));
}

/// Every child is strictly smaller than its parent.
pub proof fn lemma_child_smaller(t: Tree, k: int)
    requires
        0 <= k < t.children.len(),
    ensures
        size(t.children[k]) < size(t),
        1 + sum_sizes(t.children.take(k)) + size(t.children[k]) <= size(t),
{
    lemma_sum_take_step(t.children, k);
    lemma_sum_take_mono(t.children, k + 1, t.children.len() as int);
}

/// Size law: a tree has one node more than its children have together, and
/// so at least one.
pub proof fn lemma_size_is_one_plus_children(t: Tree)
    ensures
        size(t) == 1 + sum_sizes(t.children),
        sum_sizes(t.children) == sum_sizes(t.children.take(t.children.len() as int)),
        forall|k: int|
            0 <= k < t.children.len() ==> sum_sizes(#[trigger] t.children.take(k + 1)) == sum_sizes(
                t.children.take(k),
            ) + size(t.children[k]),
        size(t) >= 1,
{
    assert(t.children.take(t.children.len() as int) =~= t.children);
    assert forall|k: int| 0 <= k < t.children.len() implies sum_sizes(
        #[trigger] t.children.take(k + 1),
    ) == sum_sizes(t.children.take(k)) + size(t.children[k]) by {
        lemma_sum_take_step(t.children, k);
    }
}

/// The index of a node that a path leads to lies in `[0, size)`.
pub proof fn lemma_index_of_in_range(t: Tree, p: Seq<usize>)
    requires
        valid_path(t, p),
    ensures
        index_of(t, p) < size(t),
    decreases p.len(),
{
    if p.len() > 0 {
        let k = p[0] as int;
        lemma_index_of_in_range(t.children[k], p.drop_first());
        lemma_child_smaller(t, k);
    }
}

/// Two paths to nodes with the same index are the same path.
pub proof fn lemma_index_of_injective(t: Tree, p: Seq<usize>, q: Seq<usize>)
    requires
        valid_path(t, p),
        valid_path(t, q),
        index_of(t, p) == index_of(t, q),
    ensures
        p == q,
    decreases p.len(),
{
    if p.len() == 0 || q.len() == 0 {
        if p.len() != 0 || q.len() != 0 {
            assert(false);
        }
        assert(p =~= q);
    } else {
        let a = p[0] as int;
        let b = q[0] as int;
        lemma_index_of_in_range(t.children[a], p.drop_first());
        lemma_index_of_in_range(t.children[b], q.drop_first());
        if a < b {
            lemma_sum_take_step(t.children, a);
            lemma_sum_take_mono(t.children, a + 1, b);
            assert(false);
        } else if b < a {
            lemma_sum_take_step(t.children, b);
            lemma_sum_take_mono(t.children, b + 1, a);
            assert(false);
        } else {
            lemma_index_of_injective(t.children[a], p.drop_first(), q.drop_first());
            assert(p =~= seq![p[0]] + p.drop_first());
            assert(q =~= seq![q[0]] + q.drop_first());
        }
    }
}

/// The child whose subtree holds the remaining index `r`, searching from
/// child `k` on.
proof fn lemma_locate_child(cs: Seq<Tree>, r: nat, k: int) -> (j: int)
    requires
        0 <= k <= cs.len(),
        sum_sizes(cs.take(k)) <= r < sum_sizes(cs),
    ensures
        k <= j < cs.len(),
        sum_sizes(cs.take(j)) <= r < sum_sizes(cs.take(j + 1)),
    decreases cs.len() - k,
{
    assert(cs.take(cs.len() as int) =~= cs);
    if k == cs.len() {
        assert(false);
        k
    } else {
        lemma_sum_take_step(cs, k);
        if r < sum_sizes(cs.take(k + 1)) {
            k
        } else {
            lemma_locate_child(cs, r, k + 1)
        }
    }
}

/// Every index in `[0, size)` is the index of a node.
pub proof fn lemma_index_of_onto(t: Tree, i: nat)
    requires
        i < size(t),
        t.wf(t.ty()),
    ensures
        exists|p: Seq<usize>| valid_path(t, p) && index_of(t, p) == i,
    decreases t,
{
    if i == 0 {
        let p = Seq::<usize>::empty();
        assert(valid_path(t, p) && index_of(t, p) == i);
    } else {
        assert(t.children.take(0) =~= Seq::<Tree>::empty());
        let k = lemma_locate_child(t.children, (i - 1) as nat, 0);
        lemma_sum_take_step(t.children, k);
        let c = t.children[k];
        lemma_wf_child(t, t.ty(), k);
        let rem = (i - 1 - sum_sizes(t.children.take(k))) as nat;
        lemma_index_of_onto(c, rem);
        let q = choose|q: Seq<usize>| valid_path(c, q) && index_of(c, q) == rem;
        let p = seq![k as usize] + q;
        assert(p.drop_first() =~= q);
        assert(valid_path(t, p) && index_of(t, p) == i);
    }
}

/// Some node of `t` has pre-order index `i`.
pub open spec fn indexes_a_node(t: Tree, i: nat) -> bool {
    exists|p: Seq<usize>| #[trigger] valid_path(t, p) && index_of(t, p) == i
}

/// Addressing law: pre-order indices and paths correspond one to one. Each
/// index in `[0, size)` belongs to exactly one node, and each node has an
/// index in that range.
pub proof fn lemma_preorder_bijection(t: Tree)
    requires
        t.wf(t.ty()),
    ensures
        forall|p: Seq<usize>| #[trigger] valid_path(t, p) ==> index_of(t, p) < size(t),
        forall|p: Seq<usize>, q: Seq<usize>|
            valid_path(t, p) && valid_path(t, q) && #[trigger] index_of(t, p) == #[trigger] index_of(
                t,
                q,
            ) ==> p == q,
        forall|i: nat| i < size(t) ==> #[trigger] indexes_a_node(t, i),
{
    assert forall|p: Seq<usize>| #[trigger] valid_path(t, p) implies index_of(t, p) < size(t) by {
        lemma_index_of_in_range(t, p);
    }
    assert forall|p: Seq<usize>, q: Seq<usize>|
        valid_path(t, p) && valid_path(t, q) && #[trigger] index_of(t, p) == #[trigger] index_of(
            t,
            q,
        ) implies p == q by {
        lemma_index_of_injective(t, p, q);
    }
    assert forall|i: nat| i < size(t) implies #[trigger] indexes_a_node(t, i) by {
        lemma_index_of_onto(t, i);
    }
}

/// No tree in a sequence is taller than `h`, so neither is the tallest.
pub proof fn lemma_max_height_le(cs: Seq<Tree>, h: nat)
    requires
        forall|i: int| 0 <= i < cs.len() ==> height(#[trigger] cs[i]) <= h,
    ensures
        max_height(cs) <= h,
    decreases cs.len(),
{
    if cs.len() > 0 {
        let d = cs.drop_last();
        assert forall|i: int| 0 <= i < d.len() implies height(#[trigger] d[i]) <= h by {
            assert(d[i] == cs[i]);
        }
        lemma_max_height_le(d, h);
    }
}

/// A node whose kind is defined, whose children match its declared
/// arity and types, and whose children are at most `h` tall, is well-typed
/// and at most `h + 1` tall.
pub proof fn lemma_node_wf(t: Tree, h: nat)
    requires
        kind_ok(t.expr),
        t.children.len() == arity(t.expr),
        forall|i: int|
            0 <= i < t.children.len() ==> (#[trigger] t.children[i]).wf(arg_tys(t.expr)[i]),
        forall|i: int| 0 <= i < t.children.len() ==> height(#[trigger] t.children[i]) <= h,
    ensures
        t.wf(t.ty()),
        height(t) <= h + 1,
{
    lemma_max_height_le(t.children, h);
}

/// A node whose kind is defined and whose children match its declared arity
/// and types is well-typed.
pub proof fn lemma_node_typed(t: Tree)
    requires
        kind_ok(t.expr),
        t.children.len() == arity(t.expr),
        forall|i: int|
            0 <= i < t.children.len() ==> (#[trigger] t.children[i]).wf(arg_tys(t.expr)[i]),
    ensures
        t.wf(t.ty()),
{
}

/// Every node of a well-typed tree is well-typed at its own type.
pub proof fn lemma_node_at_wf(t: Tree, ty: Ty, p: Seq<usize>)
    requires
        t.wf(ty),
        valid_path(t, p),
    ensures
        node_at(t, p).wf(node_at(t, p).ty()),
        p.len() == 0 ==> node_at(t, p) == t,
    decreases p.len(),
{
    if p.len() > 0 {
        let k = p[0] as int;
        lemma_wf_child(t, ty, k);
        lemma_node_at_wf(t.children[k], t.children[k].ty(), p.drop_first());
    }
}

/// Replacing a node of a well-typed tree by a tree well-typed at the same
/// type keeps the whole tree well-typed; the path still leads to the new node.
pub proof fn lemma_replace_wf(t: Tree, ty: Ty, p: Seq<usize>, n: Tree)
    requires
        t.wf(ty),
        valid_path(t, p),
        n.wf(node_at(t, p).ty()),
    ensures
        replace_tree(t, p, n).wf(ty),
        valid_path(replace_tree(t, p, n), p),
        node_at(replace_tree(t, p, n), p) == n,
    decreases p.len(),
{
    if p.len() == 0 {
        lemma_node_at_wf(t, ty, p);
    } else {
        let k = p[0] as int;
        lemma_wf_child(t, ty, k);
        let c = t.children[k];
        lemma_replace_wf(c, c.ty(), p.drop_first(), n);
        let r = replace_tree(t, p, n);
        assert forall|i: int| 0 <= i < r.children.len() implies (#[trigger] r.children[i]).wf(
            arg_tys(r.expr)[i],
        ) by {
            if i != k {
                lemma_wf_child(t, ty, i);
            }
        }
    }
}

/// The outcome of a search for a pre-order index: either the path to the
/// node, or the number of nodes passed when the index lies beyond the tree.
pub enum FindNodeResult {
    NumVisited(u64),
    FoundNode(Vec<usize>),
}

impl FindNodeResult {
    /// The path of a successful search.
    pub fn as_found(self) -> (r: Vec<usize>)
        requires
            self is FoundNode,
        ensures
            r@ == self->FoundNode_0@,
    {
        match self {
            FindNodeResult::FoundNode(path) => path,
            FindNodeResult::NumVisited(_) => {
                proof {
                    assert(false);
                }
                Vec::new()
            },
        }
    }
}

/// Looks up the node with pre-order index `index`: the path to it when
/// `index < size`, otherwise the size of the tree.
pub fn find_node(root: &ExprSlot, index: u64) -> (r: FindNodeResult)
    ensures
        match r {
            FindNodeResult::FoundNode(p) => index < size(root@) && valid_path(root@, p@) && index_of(
                root@,
                p@,
            ) == index,
            FindNodeResult::NumVisited(n) => index >= size(root@) && n == size(root@),
        },
    decreases root,
{
    if index == 0 {
        return FindNodeResult::FoundNode(Vec::new());
    }
    let mut num_visited: u64 = 1;
    let mut i: usize = 0;
    proof {
        assert(root@.children.take(0) =~= Seq::<Tree>::empty());
    }
    while i < root.children.len()
        invariant
            i <= root.children.len(),
            root@.children.len() == root.children.len(),
            num_visited == 1 + sum_sizes(root@.children.take(i as int)),
            num_visited <= index,
        decreases root.children.len() - i,
    {
        let child = &root.children[i];
        assert(child@ == root@.children[i as int]);
        match find_node(child, index - num_visited) {
            FindNodeResult::FoundNode(mut path) => {
                let ghost sub = path@;
                path.insert(0, i);
                proof {
                    assert(path@.drop_first() =~= sub);
                    lemma_child_smaller(root@, i as int);
                }
                return FindNodeResult::FoundNode(path);
            },
            FindNodeResult::NumVisited(count) => {
                proof {
                    lemma_sum_take_step(root@.children, i as int);
                }
                num_visited = num_visited + count;
            },
        }
        i = i + 1;
    }
    proof {
        assert(root@.children.take(root@.children.len() as int) =~= root@.children);
    }
    FindNodeResult::NumVisited(num_visited)
}

/// The slot that a path leads to.
pub fn get_node<'a>(root: &'a ExprSlot, path: &Vec<usize>) -> (r: &'a ExprSlot)
    requires
        valid_path(root@, path@),
    ensures
        r@ == node_at(root@, path@),
{
    let mut pos: &ExprSlot = root;
    let mut i: usize = 0;
    proof {
        assert(path@.skip(0) =~= path@);
    }
    while i < path.len()
        invariant
            i <= path.len(),
            valid_path(pos@, path@.skip(i as int)),
            node_at(pos@, path@.skip(i as int)) == node_at(root@, path@),
        decreases path.len() - i,
    {
        proof {
            assert(path@.skip(i as int).drop_first() =~= path@.skip(i + 1));
        }
        pos = &pos.children[path[i]];
        i = i + 1;
    }
    pos
}

impl ExprSlot {
    /// A node without children.
    pub fn leaf(expr: Expr) -> (r: ExprSlot)
        ensures
            r@ == (Tree { expr, children: seq![] }),
    {
        let r = ExprSlot { expr, children: Vec::new() };
        assert(r@.children =~= seq![]);
        r
    }

    /// A node over the given children, in order.
    pub fn new(expr: Expr, children: Vec<ExprSlot>) -> (r: ExprSlot)
        ensures
            r@.expr == expr,
            r@.children == children@.map_values(|c: ExprSlot| c@),
    {
        let r = ExprSlot { expr, children };
        assert(r@.children =~= children@.map_values(|c: ExprSlot| c@));
        r
    }

    /// A node with one child.
    pub fn node1(expr: Expr, a: ExprSlot) -> (r: ExprSlot)
        ensures
            r@ == (Tree { expr, children: seq![a@] }),
    {
        let mut children: Vec<ExprSlot> = Vec::new();
        children.push(a);
        let r = ExprSlot { expr, children };
        assert(r@.children =~= seq![a@]);
        r
    }

    /// A node with two children, in order.
    pub fn node2(expr: Expr, a: ExprSlot, b: ExprSlot) -> (r: ExprSlot)
        ensures
            r@ == (Tree { expr, children: seq![a@, b@] }),
    {
        let mut children: Vec<ExprSlot> = Vec::new();
        children.push(a);
        children.push(b);
        let r = ExprSlot { expr, children };
        assert(r@.children =~= seq![a@, b@]);
        r
    }

    /// A node with three children, in order.
    pub fn node3(expr: Expr, a: ExprSlot, b: ExprSlot, c: ExprSlot) -> (r: ExprSlot)
        ensures
            r@ == (Tree { expr, children: seq![a@, b@, c@] }),
    {
        let mut children: Vec<ExprSlot> = Vec::new();
        children.push(a);
        children.push(b);
        children.push(c);
        let r = ExprSlot { expr, children };
        assert(r@.children =~= seq![a@, b@, c@]);
        r
    }

    /// A deep copy: the copy owns a tree equal to this one and shares nothing
    /// with it.
    pub fn deep_clone(&self) -> (r: ExprSlot)
        ensures
            r@ == self@,
        decreases self,
    {
        let mut children: Vec<ExprSlot> = Vec::new();
        let mut i: usize = 0;
        while i < self.children.len()
            invariant
                i <= self.children.len(),
                children.len() == i,
                forall|j: int| 0 <= j < i ==> (#[trigger] children@[j])@ == self.children@[j]@,
            decreases self.children.len() - i,
        {
            let c = self.children[i].deep_clone();
            children.push(c);
            i = i + 1;
        }
        let r = ExprSlot { expr: self.expr, children };
        assert(r@.children =~= self@.children);
        r
    }

    /// The number of nodes in the owned tree, capped at the largest `u64`.
    pub fn size(&self) -> (r: u64)
        ensures
            r == cap_u64(size(self@)),
        decreases self,
    {
        let mut acc: u64 = 1;
        let mut i: usize = 0;
        proof {
            assert(self@.children.take(0) =~= Seq::<Tree>::empty());
        }
        while i < self.children.len()
            invariant
                i <= self.children.len(),
                self@.children.len() == self.children.len(),
                acc == cap_u64(1 + sum_sizes(self@.children.take(i as int))),
            decreases self.children.len() - i,
        {
            let c = self.children[i].size();
            proof {
                lemma_sum_take_step(self@.children, i as int);
            }
            acc = acc.saturating_add(c);
            i = i + 1;
        }
        proof {
            assert(self@.children.take(self@.children.len() as int) =~= self@.children);
        }
        acc
    }

    /// The type of the value this tree produces.
    pub fn ty(&self) -> (r: Ty)
        ensures
            r == self@.ty(),
    {
        match self.expr {
            Expr::Const(c) => c.value.value_ty(),
            Expr::GetSelf(_) | Expr::Nearest(_) => Ty::Ref,
            Expr::Energy(_) => Ty::Num,
            Expr::Mul(k) => k.ty,
            Expr::ColorOf(_) => Ty::Color,
            Expr::Direction(_) => Ty::Vector,
            Expr::Similarity(_) => Ty::Frac,
            Expr::LessThan(_) | Expr::Not(_) => Ty::Bool,
            Expr::Add(k) => k.ty,
            Expr::Negate(k) => k.ty,
            Expr::If(k) => k.ty,
            Expr::Move(_) | Expr::SetVelocity(_) | Expr::Split(_) => Ty::Act,
        }
    }

    /// The declared arity of this node's kind.
    pub fn arity(&self) -> (r: usize)
        ensures
            r == arity(self.expr),
    {
        match self.expr {
            Expr::Const(_) | Expr::GetSelf(_) | Expr::Nearest(_) => 0,
            Expr::Energy(_) | Expr::ColorOf(_) | Expr::Negate(_) | Expr::Not(_) | Expr::Move(_) => 1,
            Expr::Direction(_) | Expr::Similarity(_) | Expr::LessThan(_) | Expr::Add(_)
            | Expr::Mul(_) | Expr::SetVelocity(_) | Expr::Split(_) => 2,
            Expr::If(_) => 3,
        }
    }

    /// Whether this node's kind is defined on its type; see `kind_ok`.
    pub fn kind_is_ok(&self) -> (r: bool)
        ensures
            r == kind_ok(self.expr),
    {
        match self.expr {
            Expr::Const(c) => c.value.in_range() && c.value.value_ty() != Ty::Ref,
            Expr::LessThan(k) => k.ty == Ty::Bool || k.ty == Ty::Num || k.ty == Ty::Frac,
            Expr::Add(k) => k.ty == Ty::Num || k.ty == Ty::Vector,
            Expr::Negate(k) => k.ty == Ty::Num || k.ty == Ty::Vector,
            Expr::Mul(k) => k.ty == Ty::Num || k.ty == Ty::Vector,
            _ => true,
        }
    }

    /// The type this node's kind declares for its `i`-th child.
    pub fn arg_ty(&self, i: usize) -> (r: Ty)
        requires
            i < arity(self.expr),
        ensures
            r == arg_tys(self.expr)[i as int],
    {
        match self.expr {
            Expr::Energy(_) | Expr::ColorOf(_) | Expr::Direction(_) => Ty::Ref,
            Expr::Similarity(_) => Ty::Color,
            Expr::LessThan(k) => k.ty,
            Expr::Add(k) => k.ty,
            Expr::Mul(k) => if k.ty == Ty::Vector && i == 0 {
                Ty::Frac
            } else if k.ty == Ty::Vector {
                Ty::Vector
            } else {
                Ty::Num
            },
            Expr::Negate(k) => k.ty,
            Expr::Not(_) => Ty::Bool,
            Expr::If(k) => if i == 0 {
                Ty::Bool
            } else {
                k.ty
            },
            Expr::Move(_) => Ty::Vector,
            Expr::SetVelocity(_) | Expr::Split(_) => if i == 0 {
                Ty::Vector
            } else {
                Ty::Frac
            },
            Expr::Const(_) | Expr::GetSelf(_) | Expr::Nearest(_) => Ty::Bool,
        }
    }

    /// Whether the owned tree is well-typed at its own type.
    pub fn is_well_typed(&self) -> (r: bool)
        ensures
            r == self@.wf(self@.ty()),
        decreases self,
    {
        if !self.kind_is_ok() || self.children.len() != self.arity() {
            return false;
        }
        let ghost t = self@;
        let mut i: usize = 0;
        while i < self.children.len()
            invariant
                t == self@,
                kind_ok(t.expr),
                t.children.len() == arity(t.expr),
                self.children.len() == t.children.len(),
                i <= self.children.len(),
                forall|j: int| 0 <= j < i ==> (#[trigger] t.children[j]).wf(arg_tys(t.expr)[j]),
            decreases self.children.len() - i,
        {
            let c = &self.children[i];
            assert(c@ == t.children[i as int]);
            if c.ty() != self.arg_ty(i) || !c.is_well_typed() {
                assert(!t.children[i as int].wf(arg_tys(t.expr)[i as int]));
                return false;
            }
            i = i + 1;
        }
        true
    }

    /// The `n`-th child slot.
    pub fn borrow_nth_child(&self, n: usize) -> (r: &ExprSlot)
        requires
            n < self@.children.len(),
        ensures
            r@ == self@.children[n as int],
    {
        &self.children[n]
    }

    /// The number of children of this node.
    pub fn num_children(&self) -> (r: usize)
        ensures
            r == self@.children.len(),
    {
        self.children.len()
    }

    /// Replaces the node at `path[pos..]` by `new`, leaving the rest of the
    /// tree as it was.
    pub fn replace_at(&mut self, path: &Vec<usize>, pos: usize, new: ExprSlot)
        requires
            pos <= path.len(),
            valid_path(old(self)@, path@.skip(pos as int)),
        ensures
            final(self)@ == replace_tree(old(self)@, path@.skip(pos as int), new@),
        decreases path.len() - pos,
    {
        if pos == path.len() {
            *self = new;
        } else {
            let k = path[pos];
            let ghost before = self@;
            proof {
                assert(path@.skip(pos as int).drop_first() =~= path@.skip(pos + 1));
            }
            // a stand-in occupies the child's place while the child is out
            let mut child = ExprSlot::leaf(Expr::Not(NotExpr));
            self.children.set_and_swap(k, &mut child);
            child.replace_at(path, pos + 1, new);
            self.children.set_and_swap(k, &mut child);
            proof {
                assert(self@.children =~= before.children.update(
                    k as int,
                    replace_tree(before.children[k as int], path@.skip(pos + 1), new@),
                ));
            }
        }
    }
}

} // verus!
