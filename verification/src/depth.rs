//! The depth-list builder: turns a flat sequence of `(depth, key, payload)`
//! triples into a properly nested tree.
//!
//! Used wherever indentation-style marker depth defines nesting (blockquotes,
//! nested lists). Depth is zero based; it may increase by any amount (opening
//! nested levels one per unit) and decrease to any shallower level (closing
//! all deeper levels). The pre-order flattening of the built tree's leaf
//! payloads reproduces the input payload order exactly; see
//! [`process_depths`].

use vstd::prelude::*;

verus! {

/// One entry of a depth list: a leaf payload, or a nested list tagged with
/// a grouping key.
#[derive(Debug, PartialEq)]
pub enum DepthItem<K, V> {
    Item(V),
    List(K, Vec<DepthItem<K, V>>),
}

/// An ordered sequence of depth items.
pub type DepthList<K, V> = Vec<DepthItem<K, V>>;

/// The payloads of a triple sequence, in order.
pub open spec fn payloads<K, V>(items: Seq<(usize, K, V)>) -> Seq<V> {
    items.map(|i: int, t: (usize, K, V)| t.2)
}

/// The pre-order flattening of one depth item's leaf payloads.
pub open spec fn flatten_item<K, V>(item: DepthItem<K, V>) -> Seq<V>
    decreases item,
{
    match item {
        DepthItem::Item(v) => seq![v],
        DepthItem::List(_, list) => flatten_list(list@),
    }
}

/// The pre-order flattening of a depth list's leaf payloads.
pub open spec fn flatten_list<K, V>(items: Seq<DepthItem<K, V>>) -> Seq<V>
    decreases items,
{
    if items.len() == 0 {
        Seq::empty()
    } else {
        flatten_list(items.drop_last()) + flatten_item(items.last())
    }
}

proof fn lemma_flatten_push<K, V>(items: Seq<DepthItem<K, V>>, item: DepthItem<K, V>)
    ensures
        flatten_list(items.push(item)) == flatten_list(items) + flatten_item(item),
{
    assert(items.push(item).drop_last() =~= items);
    assert(items.push(item).last() == item);
}

/// One in-progress nesting level during construction.
struct Level<K, V> {
    key: K,
    items: Vec<DepthItem<K, V>>,
}

/// The flattening of a whole stack of in-progress levels, bottom first.
spec fn flatten_stack<K, V>(stack: Seq<Level<K, V>>) -> Seq<V>
    decreases stack,
{
    if stack.len() == 0 {
        Seq::empty()
    } else {
        flatten_stack(stack.drop_last()) + flatten_list(stack.last().items@)
    }
}

proof fn lemma_flatten_stack_push<K, V>(stack: Seq<Level<K, V>>, lvl: Level<K, V>)
    ensures
        flatten_stack(stack.push(lvl)) == flatten_stack(stack) + flatten_list(lvl.items@),
{
    assert(stack.push(lvl).drop_last() =~= stack);
    assert(stack.push(lvl).last() == lvl);
}

/// Close the topmost open level, folding it into its parent as a nested
/// list item. The overall flattening of the stack is unchanged.
fn fold_top_level<K, V>(stack: &mut Vec<Level<K, V>>)
    requires
        old(stack)@.len() >= 2,
    ensures
        final(stack)@.len() == old(stack)@.len() - 1,
        flatten_stack(final(stack)@) == flatten_stack(old(stack)@),
{
    let ghost old_stack = stack@;
    let lvl = stack.pop().unwrap();
    let mut parent = stack.pop().unwrap();
    let ghost old_parent_items = parent.items@;
    let ghost lvl_items = lvl.items@;
    parent.items.push(DepthItem::List(lvl.key, lvl.items));
    proof {
        lemma_flatten_push(old_parent_items, parent.items@.last());
        assert(flatten_item(parent.items@.last()) == flatten_list(lvl_items));
    }
    let ghost sub = old_stack.subrange(0, old_stack.len() - 2);
    stack.push(parent);
    proof {
        assert(old_stack.drop_last().drop_last() =~= sub);
        assert(old_stack.last().items@ == lvl_items);
        assert(old_stack.drop_last().last().items@ == old_parent_items);
        assert(flatten_stack(old_stack) == flatten_stack(old_stack.drop_last()) + flatten_list(
            lvl_items,
        ));
        assert(flatten_stack(old_stack.drop_last()) == flatten_stack(sub) + flatten_list(
            old_parent_items,
        ));
        assert(stack@ =~= sub.push(stack@.last()));
        lemma_flatten_stack_push(sub, stack@.last());
        assert(stack@.last().items@ == old_parent_items.push(parent.items@.last()));
        assert(flatten_stack(stack@) =~= flatten_stack(old_stack));
    }
}

/// Build the nested tree from a flat `(depth, key, payload)` sequence.
///
/// The result is empty exactly when the input is; otherwise it is a single
/// top-level list tagged `top_key`, and the pre-order flattening of its leaf
/// payloads is exactly the input payload order (the round-trip invariant).
#[verifier::loop_isolation(false)]
pub fn process_depths<K: Copy, V>(top_key: K, items: Vec<(usize, K, V)>) -> (r: Vec<
    (K, DepthList<K, V>),
>)
    ensures
        items@.len() == 0 ==> r@.len() == 0,
        items@.len() > 0 ==> {
            &&& r@.len() == 1
            &&& r@[0].0 == top_key
            &&& flatten_list(r@[0].1@) == payloads(items@)
        },
{
    if items.len() == 0 {
        return Vec::new();
    }

    let ghost all_items = items@;
    let mut stack: Vec<Level<K, V>> = Vec::new();
    stack.push(Level { key: top_key, items: Vec::new() });

    let mut input = items;
    let ghost mut done: int = 0;
    proof {
        assert(stack@.drop_last().len() == 0);
        assert(flatten_stack(stack@.drop_last()) =~= Seq::<V>::empty());
        assert(stack@.last().items@.len() == 0);
        assert(flatten_list(stack@.last().items@) =~= Seq::<V>::empty());
        assert(flatten_stack(stack@) =~= payloads(all_items.subrange(0, 0)));
        assert(input@ =~= all_items.subrange(0, all_items.len() as int));
    }
    while input.len() > 0
        invariant
            0 <= done <= all_items.len(),
            input@ == all_items.subrange(done, all_items.len() as int),
            stack@.len() >= 1,
            flatten_stack(stack@) == payloads(all_items.subrange(0, done)),
        decreases input@.len(),
    {
        let (depth, key, value) = input.remove(0);
        proof {
            assert(all_items.subrange(done, all_items.len() as int)[0] == all_items[done]);
            assert(input@ =~= all_items.subrange(done + 1, all_items.len() as int));
        }

        // Close every level deeper than this triple's depth.
        while stack.len() - 1 > depth
            invariant
                stack@.len() >= 1,
                flatten_stack(stack@) == payloads(all_items.subrange(0, done)),
            decreases stack@.len(),
        {
            fold_top_level(&mut stack);
        }

        // Open one new nested level per missing depth unit.
        while stack.len() <= depth
            invariant
                stack@.len() >= 1,
                flatten_stack(stack@) == payloads(all_items.subrange(0, done)),
            decreases depth + 1 - stack@.len(),
        {
            let ghost old_stack = stack@;
            stack.push(Level { key, items: Vec::new() });
            proof {
                lemma_flatten_stack_push(old_stack, stack@.last());
                assert(flatten_list(stack@.last().items@) =~= Seq::<V>::empty());
                assert(flatten_stack(stack@) =~= payloads(all_items.subrange(0, done)));
            }
        }

        // Append the payload at its level.
        let ghost old_stack = stack@;
        let mut top = stack.pop().unwrap();
        let ghost old_top_items = top.items@;
        top.items.push(DepthItem::Item(value));
        stack.push(top);
        proof {
            lemma_flatten_push(old_top_items, stack@.last().items@.last());
            assert(flatten_item(stack@.last().items@.last()) =~= seq![all_items[done].2]);
            assert(old_stack.drop_last().push(stack@.last()) =~= stack@);
            lemma_flatten_stack_push(old_stack.drop_last(), stack@.last());
            assert(all_items.subrange(0, done + 1).drop_last() =~= all_items.subrange(0, done));
            assert(payloads(all_items.subrange(0, done + 1)) =~= payloads(
                all_items.subrange(0, done),
            ).push(all_items[done].2));
            assert(flatten_stack(stack@) =~= payloads(all_items.subrange(0, done + 1)));
            done = done + 1;
        }
    }

    // Close all remaining open levels.
    while stack.len() > 1
        invariant
            stack@.len() >= 1,
            flatten_stack(stack@) == payloads(all_items),
        decreases stack@.len(),
    {
        fold_top_level(&mut stack);
    }

    let ghost final_stack = stack@;
    let bottom = stack.pop().unwrap();
    proof {
        assert(final_stack.drop_last().len() == 0);
        assert(flatten_stack(final_stack.drop_last()) =~= Seq::<V>::empty());
        assert(flatten_stack(final_stack) == flatten_stack(final_stack.drop_last())
            + flatten_list(bottom.items@));
        assert(flatten_list(bottom.items@) =~= payloads(all_items));
    }
    let mut result: Vec<(K, DepthList<K, V>)> = Vec::new();
    result.push((top_key, bottom.items));
    result
}

} // verus!
