use vstd::prelude::*;

verus! {

/// A model of one corner of the filesystem: a node is a plain file or a
/// directory of named children. Directory contents are carried whole, as a
/// move carries a whole subtree.
pub enum FsNode {
    File,
    Dir { children: Map<Seq<char>, FsNode> },
}

/// A directory's listing: its children by name.
pub type DirListing = Map<Seq<char>, FsNode>;

/// The children of a directory node.
pub open spec fn children_of(n: FsNode) -> DirListing {
    match n {
        FsNode::Dir { children } => children,
        FsNode::File => Map::empty(),
    }
}

/// What unrolling the entry `dir` does to its parent's listing: when `dir` is
/// a directory, each of its children takes the place of whatever the parent
/// held under that name, and `dir` itself goes away; anything else is left
/// untouched.
pub open spec fn unroll_spec(parent: DirListing, dir: Seq<char>) -> DirListing {
    if parent.dom().contains(dir) && parent[dir] is Dir {
        parent.remove(dir).union_prefer_right(children_of(parent[dir]))
    } else {
        parent
    }
}

/// One step of the normalization, relative to the parent directory of the
/// wrapper `dir`. The caller that owns the real filesystem performs each step
/// in order: removal first tries a file removal and falls back to removing a
/// directory tree.
#[derive(Debug)]
pub enum UnrollOp {
    /// Remove whatever the parent holds under this name.
    RemoveExisting { name: String },
    /// Move the wrapper's child of this name up into the parent.
    MoveUp { name: String },
    /// Remove the emptied wrapper directory itself, with anything stray left
    /// in it.
    RemoveWrapper,
}

/// An `UnrollOp` with its name as a character sequence.
pub enum UnrollOpView {
    RemoveExisting { name: Seq<char> },
    MoveUp { name: Seq<char> },
    RemoveWrapper,
}

/// The view of one step.
pub open spec fn op_view(op: UnrollOp) -> UnrollOpView {
    match op {
        UnrollOp::RemoveExisting { name } => UnrollOpView::RemoveExisting { name: name@ },
        UnrollOp::MoveUp { name } => UnrollOpView::MoveUp { name: name@ },
        UnrollOp::RemoveWrapper => UnrollOpView::RemoveWrapper,
    }
}

/// The views of a step list.
pub open spec fn ops_views(ops: Seq<UnrollOp>) -> Seq<UnrollOpView> {
    ops.map_values(|o: UnrollOp| op_view(o))
}

/// What one step does to the parent's listing. A move finds the named child
/// inside the wrapper, places it in the parent, and takes it out of the
/// wrapper; it does nothing when there is nothing to move.
pub open spec fn apply_unroll_op(parent: DirListing, dir: Seq<char>, op: UnrollOpView) -> DirListing {
    match op {
        UnrollOpView::RemoveExisting { name } => parent.remove(name),
        UnrollOpView::MoveUp { name } => {
            if parent.dom().contains(dir) && parent[dir] is Dir && children_of(
                parent[dir],
            ).dom().contains(name) {
                let ch = children_of(parent[dir]);
                parent.insert(
                    dir,
                    FsNode::Dir { children: ch.remove(name) },
                ).insert(name, ch[name])
            } else {
                parent
            }
        },
        UnrollOpView::RemoveWrapper => parent.remove(dir),
    }
}

/// The steps applied in order.
pub open spec fn apply_unroll_ops(parent: DirListing, dir: Seq<char>, ops: Seq<UnrollOpView>) -> DirListing
    decreases ops.len(),
{
    if ops.len() == 0 {
        parent
    } else {
        apply_unroll_ops(apply_unroll_op(parent, dir, ops[0]), dir, ops.skip(1))
    }
}

/// The canonical plan for unrolling a wrapper directory with the given
/// children: for each child, clear the way in the parent and move the child
/// up; at the end, remove the wrapper.
pub open spec fn unroll_plan_views(names: Seq<Seq<char>>) -> Seq<UnrollOpView>
    decreases names.len(),
{
    if names.len() == 0 {
        seq![UnrollOpView::RemoveWrapper]
    } else {
        seq![
            UnrollOpView::RemoveExisting { name: names[0] },
            UnrollOpView::MoveUp { name: names[0] },
        ] + unroll_plan_views(names.skip(1))
    }
}

/// The views of a list of strings.
pub open spec fn names_of(children: Seq<String>) -> Seq<Seq<char>> {
    children.map_values(|c: String| c@)
}

/// Plans the normalization of a wrapper directory whose children are listed
/// in `children`, in listing order. The caller performs the steps against the
/// real filesystem; a directory that does not exist has no plan to perform,
/// which is the no-op case of the normalization.
pub fn unroll_plan(children: &Vec<String>) -> (ops: Vec<UnrollOp>)
    ensures
        ops_views(ops@) == unroll_plan_views(names_of(children@)),
{
    let n = children.len();
    let mut ops: Vec<UnrollOp> = Vec::new();
    let mut i: usize = 0;
    proof {
        assert(names_of(children@).skip(0) =~= names_of(children@));
        assert(ops_views(ops@) =~= Seq::<UnrollOpView>::empty());
    }
    while i < n
        invariant
            i <= n,
            n == children@.len(),
            unroll_plan_views(names_of(children@)) == ops_views(ops@) + unroll_plan_views(
                names_of(children@).skip(i as int),
            ),
        decreases n - i,
    {
        let ghost old_ops = ops@;
        let ghost rest = names_of(children@).skip(i as int);
        ops.push(UnrollOp::RemoveExisting { name: children[i].clone() });
        ops.push(UnrollOp::MoveUp { name: children[i].clone() });
        proof {
            assert(rest[0] == children@[i as int]@);
            assert(rest.skip(1) =~= names_of(children@).skip(i + 1int));
            assert(ops_views(ops@) =~= ops_views(old_ops) + seq![
                UnrollOpView::RemoveExisting { name: children@[i as int]@ },
                UnrollOpView::MoveUp { name: children@[i as int]@ },
            ]);
            assert(ops_views(old_ops) + (seq![
                UnrollOpView::RemoveExisting { name: children@[i as int]@ },
                UnrollOpView::MoveUp { name: children@[i as int]@ },
            ] + unroll_plan_views(rest.skip(1))) =~= ops_views(ops@) + unroll_plan_views(
                rest.skip(1),
            ));
        }
        i += 1;
    }
    let ghost old_ops = ops@;
    ops.push(UnrollOp::RemoveWrapper);
    proof {
        assert(names_of(children@).skip(n as int) =~= Seq::<Seq<char>>::empty());
        assert(ops_views(ops@) =~= ops_views(old_ops) + seq![UnrollOpView::RemoveWrapper]);
    }
    ops
}

/// Unrolling a wrapper directory, step by step, flattens it: applying the
/// canonical plan for its children leaves the parent holding each child under
/// its own name, with the wrapper gone — exactly the one-step normalization
/// `unroll_spec`. The children must be listed exactly once each, and the
/// wrapper's own name must not be among them.
pub proof fn lemma_unroll_plan_applies(parent: DirListing, dir: Seq<char>, names: Seq<Seq<char>>)
    requires
        parent.dom().contains(dir),
        parent[dir] is Dir,
        forall|i: int, j: int| 0 <= i < j < names.len() ==> names[i] != names[j],
        forall|n: Seq<char>|
            children_of(parent[dir]).dom().contains(n) <==> names.contains(n),
        forall|i: int| 0 <= i < names.len() ==> names[i] != dir,
    ensures
        apply_unroll_ops(parent, dir, unroll_plan_views(names)) == unroll_spec(parent, dir),
    decreases names.len(),
{
    let ch = children_of(parent[dir]);
    if names.len() == 0 {
        assert(ch.dom() =~= Set::<Seq<char>>::empty()) by {
            assert forall|n: Seq<char>| !ch.dom().contains(n) by {
                if ch.dom().contains(n) {
                    assert(names.contains(n));
                }
            }
        }
        let plan = unroll_plan_views(names);
        assert(plan.skip(1) =~= Seq::<UnrollOpView>::empty());
        assert(plan[0] == UnrollOpView::RemoveWrapper);
        assert(apply_unroll_op(parent, dir, plan[0]) == parent.remove(dir));
        assert(apply_unroll_ops(parent, dir, plan) == apply_unroll_ops(
            parent.remove(dir),
            dir,
            plan.skip(1),
        ));
        assert(apply_unroll_ops(parent.remove(dir), dir, plan.skip(1)) == parent.remove(dir));
        assert(parent.remove(dir).union_prefer_right(ch) =~= parent.remove(dir));
    } else {
        let c0 = names[0];
        assert(names.contains(c0));
        assert(ch.dom().contains(c0));
        let plan = unroll_plan_views(names);
        let p1 = parent.remove(c0);
        assert(apply_unroll_op(parent, dir, plan[0]) == p1);
        assert(p1.dom().contains(dir) && p1[dir] == parent[dir]);
        let p2 = p1.insert(dir, FsNode::Dir { children: ch.remove(c0) }).insert(c0, ch[c0]);
        assert(plan.skip(1)[0] == (UnrollOpView::MoveUp { name: c0 }));
        assert(apply_unroll_op(p1, dir, plan.skip(1)[0]) == p2);
        let rest = names.skip(1);
        assert(plan.skip(1).skip(1) =~= unroll_plan_views(rest));
        // the remaining plan, run on the state after the first move, is the
        // induction's subject
        assert(p2.dom().contains(dir) && p2[dir] == (FsNode::Dir { children: ch.remove(c0) }));
        assert(forall|i: int, j: int| 0 <= i < j < rest.len() ==> rest[i] != rest[j]);
        assert forall|n: Seq<char>|
            children_of(p2[dir]).dom().contains(n) <==> rest.contains(n) by {
            if ch.remove(c0).dom().contains(n) {
                assert(names.contains(n));
                let i = choose|i: int| 0 <= i < names.len() && names[i] == n;
                assert(i != 0);
                assert(rest[i - 1] == n);
            }
            if rest.contains(n) {
                let i = choose|i: int| 0 <= i < rest.len() && rest[i] == n;
                assert(names[i + 1] == n);
                assert(names.contains(n));
                assert(n != c0);
            }
        }
        assert(forall|i: int| 0 <= i < rest.len() ==> rest[i] != dir);
        lemma_unroll_plan_applies(p2, dir, rest);
        assert(plan[0] == (UnrollOpView::RemoveExisting { name: c0 }));
        assert(apply_unroll_ops(parent, dir, plan) == apply_unroll_ops(p1, dir, plan.skip(1)));
        assert(apply_unroll_ops(p1, dir, plan.skip(1)) == apply_unroll_ops(
            p2,
            dir,
            plan.skip(1).skip(1),
        ));
        assert(apply_unroll_ops(parent, dir, plan) == apply_unroll_ops(
            p2,
            dir,
            unroll_plan_views(rest),
        ));
        let lhs = p2.remove(dir).union_prefer_right(ch.remove(c0));
        let rhs = parent.remove(dir).union_prefer_right(ch);
        assert(unroll_spec(p2, dir) == lhs);
        assert(lhs =~= rhs) by {
            assert forall|k: Seq<char>| #![auto] lhs.dom().contains(k) <==> rhs.dom().contains(
                k,
            ) by {
                if k != dir && k != c0 {
                    assert(p2.dom().contains(k) <==> parent.dom().contains(k));
                }
            }
            assert forall|k: Seq<char>| #![auto] rhs.dom().contains(k) implies lhs[k] == rhs[k] by {
                if k == c0 {
                    assert(lhs[c0] == ch[c0]);
                    assert(rhs[c0] == ch[c0]);
                } else if k != dir {
                    if ch.dom().contains(k) {
                        assert(lhs[k] == ch[k]);
                        assert(rhs[k] == ch[k]);
                    } else {
                        assert(lhs[k] == parent[k]);
                        assert(rhs[k] == parent[k]);
                    }
                }
            }
        }
    }
}

/// The steps that place a plain file under `name` in a destination: clear
/// whatever occupies the name first, then copy the file in.
#[derive(Clone, Copy, PartialEq, Eq, Structural, Debug)]
pub enum ReplaceStep {
    /// Remove what sits at the destination name (a file, else a whole
    /// directory).
    RemoveExisting,
    /// Copy the artifact to the destination name.
    CopyFile,
}

/// What the replacement steps do to the destination's listing.
pub open spec fn apply_replace_steps(
    parent: DirListing,
    name: Seq<char>,
    steps: Seq<ReplaceStep>,
) -> DirListing
    decreases steps.len(),
{
    if steps.len() == 0 {
        parent
    } else {
        let p = match steps[0] {
            ReplaceStep::RemoveExisting => parent.remove(name),
            ReplaceStep::CopyFile => parent.insert(name, FsNode::File),
        };
        apply_replace_steps(p, name, steps.skip(1))
    }
}

/// The canonical plan for placing a plain file: removal first when something
/// already occupies the destination name.
pub open spec fn replace_plan(dest_exists: bool) -> Seq<ReplaceStep> {
    if dest_exists {
        seq![ReplaceStep::RemoveExisting, ReplaceStep::CopyFile]
    } else {
        seq![ReplaceStep::CopyFile]
    }
}

/// Plans the placement of a plain file whose destination name may already be
/// taken.
pub fn plain_file_steps(dest_exists: bool) -> (steps: Vec<ReplaceStep>)
    ensures
        steps@ == replace_plan(dest_exists),
{
    let mut steps: Vec<ReplaceStep> = Vec::new();
    if dest_exists {
        steps.push(ReplaceStep::RemoveExisting);
    }
    steps.push(ReplaceStep::CopyFile);
    proof {
        assert(steps@ =~= replace_plan(dest_exists));
    }
    steps
}

/// Replacement, not merge: placing a plain file leaves a file under the
/// destination name, whatever stood there before — in particular a whole
/// directory of that name is gone.
pub proof fn lemma_plain_file_replaces(parent: DirListing, name: Seq<char>, dest_exists: bool)
    requires
        dest_exists == parent.dom().contains(name),
    ensures
        apply_replace_steps(parent, name, replace_plan(dest_exists)) == parent.insert(
            name,
            FsNode::File,
        ),
        apply_replace_steps(parent, name, replace_plan(dest_exists))[name] is File,
{
    let plan = replace_plan(dest_exists);
    if dest_exists {
        assert(plan.skip(1) =~= seq![ReplaceStep::CopyFile]);
        assert(plan.skip(1).skip(1) =~= Seq::<ReplaceStep>::empty());
        assert(apply_replace_steps(parent, name, plan) == apply_replace_steps(
            parent.remove(name),
            name,
            plan.skip(1),
        ));
        assert(apply_replace_steps(parent.remove(name), name, plan.skip(1))
            == apply_replace_steps(parent.remove(name).insert(name, FsNode::File), name, plan.skip(1).skip(1)));
        assert(parent.remove(name).insert(name, FsNode::File) =~= parent.insert(
            name,
            FsNode::File,
        ));
    } else {
        assert(plan.skip(1) =~= Seq::<ReplaceStep>::empty());
        assert(apply_replace_steps(parent, name, plan) == apply_replace_steps(
            parent.insert(name, FsNode::File),
            name,
            plan.skip(1),
        ));
    }
}

/// Installing an archive that wraps its payload in a single top directory
/// ends flat: extraction places the wrapper `base` with the payload `items`
/// as its children, and the normalization plan then leaves every item at the
/// top under its own name, with no wrapper directory remaining.
pub proof fn lemma_wrapped_archive_flattens(
    parent: DirListing,
    base: Seq<char>,
    items: DirListing,
    names: Seq<Seq<char>>,
)
    requires
        !items.dom().contains(base),
        forall|i: int, j: int| 0 <= i < j < names.len() ==> names[i] != names[j],
        forall|n: Seq<char>| items.dom().contains(n) <==> names.contains(n),
    ensures
        ({
            let extracted = parent.insert(base, FsNode::Dir { children: items });
            let result = apply_unroll_ops(extracted, base, unroll_plan_views(names));
            &&& result == parent.remove(base).union_prefer_right(items)
            &&& !result.dom().contains(base)
            &&& forall|n: Seq<char>|
                items.dom().contains(n) ==> result.dom().contains(n) && result[n] == items[n]
        }),
{
    let extracted = parent.insert(base, FsNode::Dir { children: items });
    assert(forall|i: int| 0 <= i < names.len() ==> names[i] != base) by {
        if exists|i: int| 0 <= i < names.len() && names[i] == base {
            let i = choose|i: int| 0 <= i < names.len() && names[i] == base;
            assert(names.contains(base));
        }
    }
    lemma_unroll_plan_applies(extracted, base, names);
    assert(extracted.remove(base) =~= parent.remove(base));
}

/// Unrolling a name the parent does not hold as a directory is a no-op: the
/// listing is untouched.
pub proof fn lemma_unroll_missing_is_noop(parent: DirListing, dir: Seq<char>)
    requires
        !parent.dom().contains(dir) || parent[dir] is File,
    ensures
        unroll_spec(parent, dir) == parent,
{
}

} // verus!
