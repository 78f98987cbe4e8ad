//! What holds of a program in the making, whatever is emitted and resolved: no jump is forgotten.

use vstd::prelude::*;
use crate::builder::{filled, is_cursor_of, label_index, BuilderView, InsnReference};
use crate::insn::{law_with_target, Insn};
use crate::schema::Table;
use crate::state::StateView;
use crate::BranchOffset;

verus! {

/// The label at place `k` among all labels.
pub open spec fn label_at(k: int) -> BranchOffset {
    (-k - 1) as BranchOffset
}

/// Instructions and labels agree: an instruction waits for a label, once, just where that label is
/// what it holds in place of a position.
pub open spec fn linked(b: BuilderView) -> bool {
    &&& b.insns.len() <= usize::MAX
    &&& b.unresolved_labels.len() <= i64::MAX
    &&& forall|k: int|
        0 <= k < b.unresolved_labels.len() ==> (#[trigger] b.unresolved_labels[k]).no_duplicates()
    &&& forall|k: int, j: int|
        0 <= k < b.unresolved_labels.len() && 0 <= j < b.unresolved_labels[k].len() ==> (
        #[trigger] b.unresolved_labels[k][j]) < b.insns.len()
            && b.insns[b.unresolved_labels[k][j] as int].target() == Some(label_at(k))
    &&& forall|i: int|
        0 <= i < b.insns.len() && (#[trigger] b.insns[i]).is_pending() ==> b.is_label(
            b.insns[i].target()->0,
        ) && b.waiting_for(b.insns[i].target()->0).contains(i as usize)
}

/// A new program is linked.
pub proof fn law_linked_new(b: BuilderView)
    requires
        b.insns.len() == 0,
        b.unresolved_labels.len() == 0,
    ensures
        linked(b),
{
}

/// A new label keeps a program linked. It is a label, and nothing waits for it.
pub proof fn law_linked_label(b: BuilderView)
    requires
        linked(b),
        b.unresolved_labels.len() < i64::MAX,
    ensures
        linked(b.with_label()),
        !b.is_label(label_at(b.unresolved_labels.len() as int)),
        b.with_label().is_label(label_at(b.unresolved_labels.len() as int)),
        b.with_label().waiting_for(label_at(b.unresolved_labels.len() as int)).len() == 0,
{
    let c = b.with_label();
    assert forall|k: int, j: int|
        0 <= k < c.unresolved_labels.len() && 0 <= j < c.unresolved_labels[k].len() implies (
    #[trigger] c.unresolved_labels[k][j]) < c.insns.len()
        && c.insns[c.unresolved_labels[k][j] as int].target() == Some(label_at(k)) by {
        assert(k < b.unresolved_labels.len());
        assert(b.unresolved_labels[k][j] == c.unresolved_labels[k][j]);
    }
    assert forall|i: int| 0 <= i < c.insns.len() && (#[trigger] c.insns[i]).is_pending() implies {
        &&& c.is_label(c.insns[i].target()->0)
        &&& c.waiting_for(c.insns[i].target()->0).contains(i as usize)
    } by {
        assert(b.insns[i].is_pending());
    }
}

/// An instruction that waits for nothing keeps a program linked.
pub proof fn law_linked_push(b: BuilderView, insn: Insn)
    requires
        linked(b),
        b.insns.len() < usize::MAX,
        !insn.is_pending(),
    ensures
        linked(b.pushed(insn)),
{
    let c = b.pushed(insn);
    assert forall|k: int, j: int|
        0 <= k < c.unresolved_labels.len() && 0 <= j < c.unresolved_labels[k].len() implies (
    #[trigger] c.unresolved_labels[k][j]) < c.insns.len()
        && c.insns[c.unresolved_labels[k][j] as int].target() == Some(label_at(k)) by {
        assert(b.unresolved_labels[k][j] < b.insns.len());
    }
    assert forall|i: int| 0 <= i < c.insns.len() && (#[trigger] c.insns[i]).is_pending() implies {
        &&& c.is_label(c.insns[i].target()->0)
        &&& c.waiting_for(c.insns[i].target()->0).contains(i as usize)
    } by {
        assert(i < b.insns.len());
        assert(b.insns[i].is_pending());
    }
}

/// An instruction that is emitted with a dependency on the label that it holds keeps a program
/// linked.
pub proof fn law_linked_dependency(b: BuilderView, insn: Insn, label: BranchOffset)
    requires
        linked(b),
        b.insns.len() < usize::MAX,
        b.is_label(label),
        insn.target() == Some(label),
    ensures
        linked(b.pushed_waiting(insn, label)),
{
    let at = b.insns.len() as InsnReference;
    let c = b.pushed_waiting(insn, label);
    let x = label_index(label);
    assert forall|k: int| 0 <= k < c.unresolved_labels.len() implies (
    #[trigger] c.unresolved_labels[k]).no_duplicates() by {
        assert(b.unresolved_labels[k].no_duplicates());
        if k == x {
            assert forall|j: int| 0 <= j < b.unresolved_labels[k].len() implies
                #[trigger] b.unresolved_labels[k][j] != at by {
                assert(b.unresolved_labels[k][j] < b.insns.len());
            }
        }
    }
    assert forall|k: int, j: int|
        0 <= k < c.unresolved_labels.len() && 0 <= j < c.unresolved_labels[k].len() implies (
    #[trigger] c.unresolved_labels[k][j]) < c.insns.len()
        && c.insns[c.unresolved_labels[k][j] as int].target() == Some(label_at(k)) by {
        if j < b.unresolved_labels[k].len() {
            assert(b.unresolved_labels[k][j] < b.insns.len());
            assert(c.unresolved_labels[k][j] == b.unresolved_labels[k][j]);
        }
    }
    assert forall|i: int| 0 <= i < c.insns.len() && (#[trigger] c.insns[i]).is_pending() implies {
        &&& c.is_label(c.insns[i].target()->0)
        &&& c.waiting_for(c.insns[i].target()->0).contains(i as usize)
    } by {
        if i < b.insns.len() {
            assert(b.insns[i].is_pending());
            let l = b.insns[i].target()->0;
            let j = choose|j: int|
                0 <= j < b.waiting_for(l).len() && b.waiting_for(l)[j] == i as usize;
            assert(c.waiting_for(l)[j] == i as usize);
        } else {
            assert(c.waiting_for(label)[b.waiting_for(label).len() as int] == at);
        }
    }
}

/// In a linked program every label can be resolved.
pub proof fn law_linked_resolvable(b: BuilderView, label: BranchOffset)
    requires
        linked(b),
        b.is_label(label),
    ensures
        b.is_resolvable(label),
{
    let k = label_index(label);
    assert(b.unresolved_labels[k].no_duplicates());
    assert forall|j: int| 0 <= j < b.waiting_for(label).len() implies (
    #[trigger] b.waiting_for(label)[j]) < b.insns.len()
        && b.insns[b.waiting_for(label)[j] as int].is_pending() by {
        assert(b.unresolved_labels[k][j] < b.insns.len());
    }
}

/// Resolving a label keeps a program linked. Every instruction that waited for the label jumps to
/// the given position, every other instruction is what it was, and nothing waits for the label any
/// more.
pub proof fn law_linked_resolve(b: BuilderView, label: BranchOffset, to: BranchOffset)
    requires
        linked(b),
        b.is_label(label),
        to >= 0,
    ensures
        linked(b.resolved(label, to)),
        b.resolved(label, to).waiting_for(label).len() == 0,
        b.resolved(label, to).insns.len() == b.insns.len(),
        forall|i: int|
            0 <= i < b.insns.len() ==> #[trigger] b.resolved(label, to).insns[i] == (
            if b.insns[i].target() == Some(label) {
                b.insns[i].with_target(to)
            } else {
                b.insns[i]
            }),
{
    let c = b.resolved(label, to);
    let x = label_index(label);
    let refs = b.waiting_for(label);
    assert forall|i: int| 0 <= i < b.insns.len() implies (refs.contains(i as usize)
        <==> #[trigger] b.insns[i].target() == Some(label)) by {
        if refs.contains(i as usize) {
            let j = choose|j: int| 0 <= j < refs.len() && refs[j] == i as usize;
            assert(b.unresolved_labels[x][j] == i as usize);
        }
        if b.insns[i].target() == Some(label) {
            assert(b.insns[i].is_pending());
        }
    }
    assert forall|i: int| 0 <= i < b.insns.len() implies #[trigger] c.insns[i] == (
    if b.insns[i].target() == Some(label) {
        b.insns[i].with_target(to)
    } else {
        b.insns[i]
    }) by {
        assert(refs.contains(i as usize) <==> b.insns[i].target() == Some(label));
    }
    assert forall|k: int| 0 <= k < c.unresolved_labels.len() implies (
    #[trigger] c.unresolved_labels[k]).no_duplicates() by {
        assert(b.unresolved_labels[k].no_duplicates());
    }
    assert forall|k: int, j: int|
        0 <= k < c.unresolved_labels.len() && 0 <= j < c.unresolved_labels[k].len() implies (
    #[trigger] c.unresolved_labels[k][j]) < c.insns.len()
        && c.insns[c.unresolved_labels[k][j] as int].target() == Some(label_at(k)) by {
        assert(k != x);
        let at = b.unresolved_labels[k][j];
        assert(at < b.insns.len() && b.insns[at as int].target() == Some(label_at(k)));
        assert(c.insns[at as int] == b.insns[at as int]);
    }
    assert forall|i: int| 0 <= i < c.insns.len() && (#[trigger] c.insns[i]).is_pending() implies {
        &&& c.is_label(c.insns[i].target()->0)
        &&& c.waiting_for(c.insns[i].target()->0).contains(i as usize)
    } by {
        assert(b.insns[i].target() != Some(label));
        assert(b.insns[i].is_pending());
    }
}

/// It makes no difference whether a dependency is added before its instruction is emitted or after.
pub proof fn law_dependency_before_or_after(b: BuilderView, insn: Insn, label: BranchOffset)
    ensures
        b.depending(label, b.insns.len() as InsnReference).pushed(insn) == b.pushed_waiting(
            insn,
            label,
        ),
{
}

/// Tells whether each label of a list has been allocated and each position can be jumped to.
pub open spec fn all_labels(b: BuilderView, list: Seq<(BranchOffset, InsnReference)>) -> bool {
    forall|i: int|
        0 <= i < list.len() ==> b.is_label((#[trigger] list[i]).0) && list[i].1 <= i64::MAX
}

/// In a linked program, resolutions that have been put off can all be carried out. The program
/// stays linked, and nothing waits any more for a label that was resolved.
pub proof fn law_linked_deferred(b: BuilderView, list: Seq<(BranchOffset, InsnReference)>)
    requires
        linked(b),
        all_labels(b, list),
    ensures
        b.all_resolvable(list),
        linked(b.all_resolved(list)),
        b.all_resolved(list).unresolved_labels.len() == b.unresolved_labels.len(),
        b.all_resolved(list).insns.len() == b.insns.len(),
        forall|i: int|
            0 <= i < list.len() ==> b.all_resolved(list).waiting_for(
                (#[trigger] list[i]).0,
            ).len() == 0,
    decreases list.len(),
{
    if list.len() > 0 {
        let rest = list.drop_last();
        let (label, at) = list.last();
        assert forall|i: int| 0 <= i < rest.len() implies b.is_label((#[trigger] rest[i]).0)
            && rest[i].1 <= i64::MAX by {
            assert(rest[i] == list[i]);
        }
        law_linked_deferred(b, rest);
        let c = b.all_resolved(rest);
        assert(list[list.len() - 1] == (label, at));
        law_linked_resolvable(c, label);
        law_linked_resolve(c, label, at as BranchOffset);
        assert forall|i: int| 0 <= i < list.len() implies b.all_resolved(list).waiting_for(
            (#[trigger] list[i]).0,
        ).len() == 0 by {
            if i < rest.len() {
                assert(rest[i] == list[i]);
                assert(c.waiting_for(rest[i].0).len() == 0);
            }
        }
    }
}

/// Keeping back an instruction that waits for nothing keeps a program linked.
pub proof fn law_linked_kept_back(b: BuilderView)
    requires
        linked(b),
        b.insns.len() > 0,
        !b.insns.last().is_pending(),
    ensures
        linked(b.kept_back()),
{
    let c = b.kept_back();
    assert forall|k: int, j: int|
        0 <= k < c.unresolved_labels.len() && 0 <= j < c.unresolved_labels[k].len() implies (
    #[trigger] c.unresolved_labels[k][j]) < c.insns.len()
        && c.insns[c.unresolved_labels[k][j] as int].target() == Some(label_at(k)) by {
        let at = b.unresolved_labels[k][j];
        assert(at < b.insns.len() && b.insns[at as int].target() == Some(label_at(k)));
    }
    assert forall|i: int| 0 <= i < c.insns.len() && (#[trigger] c.insns[i]).is_pending() implies {
        &&& c.is_label(c.insns[i].target()->0)
        &&& c.waiting_for(c.insns[i].target()->0).contains(i as usize)
    } by {
        assert(b.insns[i].is_pending());
    }
}

/// Putting instructions that were kept back and wait for nothing at the end keeps a program linked.
pub proof fn law_linked_constants(b: BuilderView)
    requires
        linked(b),
        b.insns.len() + b.constant_insns.len() <= usize::MAX,
        forall|i: int|
            0 <= i < b.constant_insns.len() ==> !(#[trigger] b.constant_insns[i]).is_pending(),
    ensures
        linked(b.appended()),
{
    let c = b.appended();
    assert forall|k: int, j: int|
        0 <= k < c.unresolved_labels.len() && 0 <= j < c.unresolved_labels[k].len() implies (
    #[trigger] c.unresolved_labels[k][j]) < c.insns.len()
        && c.insns[c.unresolved_labels[k][j] as int].target() == Some(label_at(k)) by {
        assert(b.unresolved_labels[k][j] < b.insns.len());
    }
    assert forall|i: int| 0 <= i < c.insns.len() && (#[trigger] c.insns[i]).is_pending() implies {
        &&& c.is_label(c.insns[i].target()->0)
        &&& c.waiting_for(c.insns[i].target()->0).contains(i as usize)
    } by {
        if i < b.insns.len() {
            assert(b.insns[i].is_pending());
        } else {
            assert(!b.constant_insns[i - b.insns.len()].is_pending());
        }
    }
}

/// Where nothing waits for any label in a linked program, no instruction holds a label in place of
/// a position.
pub proof fn law_all_labels_resolved(b: BuilderView)
    requires
        linked(b),
        forall|k: int|
            0 <= k < b.unresolved_labels.len() ==> (#[trigger] b.unresolved_labels[k]).len() == 0,
    ensures
        forall|i: int| 0 <= i < b.insns.len() ==> !(#[trigger] b.insns[i]).is_pending(),
{
    assert forall|i: int| 0 <= i < b.insns.len() implies !(#[trigger] b.insns[i]).is_pending() by {
        if b.insns[i].is_pending() {
            let label = b.insns[i].target()->0;
            assert(b.waiting_for(label).contains(i as usize));
            assert(b.unresolved_labels[label_index(label)].len() == 0);
        }
    }
}

/// Tells whether `after` is `b` once `label`, which was assigned to the next instruction, has come
/// to stand for that instruction's position `at`: the instructions that held the label jump there,
/// the others are what they were, no label is assigned any more, and the program is linked.
pub open spec fn lands(b: BuilderView, label: BranchOffset, at: int, after: BuilderView) -> bool {
    &&& linked(after)
    &&& after.next_insn_label is None
    &&& after.waiting_for(label).len() == 0
    &&& after.insns.len() == b.insns.len()
    &&& forall|i: int|
        0 <= i < b.insns.len() ==> #[trigger] after.insns[i] == (if b.insns[i].target() == Some(
            label,
        ) {
            b.insns[i].with_target(at as BranchOffset)
        } else {
            b.insns[i]
        })
}

/// In a linked program the label that was assigned to the next instruction lands.
proof fn lemma_lands(b: BuilderView, label: BranchOffset, at: int)
    requires
        linked(b),
        0 <= at <= i64::MAX,
        b.next_insn_label == Some(label),
        b.is_label(label),
    ensures
        b.can_land(),
        lands(b, label, at, b.landed(at)),
{
    let c = BuilderView { next_insn_label: None, ..b };
    assert(linked(c));
    law_linked_resolvable(b, label);
    law_linked_resolve(c, label, at as BranchOffset);
}

/// A label that is assigned to the next instruction comes to stand for the position of the
/// instruction that is emitted next, and the program stays linked.
pub proof fn law_preassigned_label(b: BuilderView, label: BranchOffset, insn: Insn)
    requires
        linked(b),
        b.insns.len() < i64::MAX,
        b.insns.len() < usize::MAX,
        b.next_insn_label == Some(label),
        b.is_label(label),
        !insn.is_pending(),
    ensures
        b.pushed(insn).can_land(),
        lands(b.pushed(insn), label, b.insns.len() as int, b.emitted(insn)),
{
    law_linked_push(b, insn);
    lemma_lands(b.pushed(insn), label, b.insns.len() as int);
}

/// A label that is assigned to the next instruction comes to stand for the position of the
/// instruction that is emitted next, where that instruction itself waits for a label, be it the
/// same one or another; and the program stays linked.
pub proof fn law_preassigned_label_with_dependency(
    b: BuilderView,
    label: BranchOffset,
    insn: Insn,
    awaited: BranchOffset,
)
    requires
        linked(b),
        b.insns.len() < i64::MAX,
        b.insns.len() < usize::MAX,
        b.next_insn_label == Some(label),
        b.is_label(label),
        b.is_label(awaited),
        insn.target() == Some(awaited),
    ensures
        b.pushed_waiting(insn, awaited).can_land(),
        lands(
            b.pushed_waiting(insn, awaited),
            label,
            b.insns.len() as int,
            b.emitted_waiting(insn, awaited),
        ),
{
    law_linked_dependency(b, insn, awaited);
    lemma_lands(b.pushed_waiting(insn, awaited), label, b.insns.len() as int);
}

/// A label that is assigned to the next instruction comes to stand for the position of the first
/// one of the instructions that were kept back, where they are emitted next; and the program stays
/// linked.
pub proof fn law_preassigned_label_to_constants(b: BuilderView, label: BranchOffset)
    requires
        linked(b),
        b.constant_insns.len() > 0,
        b.insns.len() <= i64::MAX,
        b.insns.len() + b.constant_insns.len() <= usize::MAX,
        b.next_insn_label == Some(label),
        b.is_label(label),
        forall|i: int|
            0 <= i < b.constant_insns.len() ==> !(#[trigger] b.constant_insns[i]).is_pending(),
    ensures
        b.appended().can_land(),
        lands(b.appended(), label, b.insns.len() as int, b.with_constants()),
        b.appended().insns[b.insns.len() as int] == b.constant_insns[0],
{
    law_linked_constants(b);
    lemma_lands(b.appended(), label, b.insns.len() as int);
}

/// Keeping an instruction back and putting what was kept back at the end loses no instruction and
/// adds none: the instructions that were kept back stand at the end, in the order in which they
/// were. Where no label is assigned to the next instruction, this is all that emitting them does.
pub proof fn law_constants_at_the_end(b: BuilderView)
    requires
        b.insns.len() > 0,
    ensures
        b.kept_back().appended().insns == b.insns.drop_last() + b.constant_insns.push(
            b.insns.last(),
        ),
        b.kept_back().appended().insns.to_multiset() == b.appended().insns.to_multiset(),
        b.next_insn_label is None ==> b.with_constants() == b.appended(),
{
    broadcast use vstd::seq_lib::group_to_multiset_ensures;

    let (rest, last) = (b.insns.drop_last(), b.insns.last());
    assert(b.insns =~= rest.push(last));
    vstd::seq_lib::lemma_multiset_commutative(rest, b.constant_insns.push(last));
    vstd::seq_lib::lemma_multiset_commutative(b.insns, b.constant_insns);
    assert(b.kept_back().appended().insns.to_multiset() =~= b.appended().insns.to_multiset());
}

/// Registers that are allocated and given back leave the builder as it was.
pub proof fn law_registers_given_back(b: BuilderView, amount: int)
    requires
        0 <= amount,
        b.next_free_register + amount <= usize::MAX,
    ensures
        b.allocating(amount).dropping(amount) == b,
{
}

/// The registers that are allocated next start behind those that have been allocated, and a program
/// that is given as many registers as were allocated has all of them.
pub proof fn law_allocated_registers_exist(b: BuilderView, amount: int, st: StateView)
    requires
        0 <= amount,
        b.next_free_register + amount <= usize::MAX,
        st.registers.len() >= b.allocating(amount).next_free_register,
    ensures
        b.allocating(amount).next_free_register == b.next_free_register + amount,
        forall|i: usize| i < b.next_free_register + amount ==> #[trigger] st.has(i),
{
}

/// The cursor that is allocated for a table is found under the table's name, unless an earlier
/// cursor has that name.
pub proof fn law_cursor_found(b: BuilderView, name: String, table: Option<Table>)
    requires
        forall|i: int| !#[trigger] is_cursor_of(b.cursor_ref, i, name@),
    ensures
        forall|i: int|
            #[trigger] is_cursor_of(b.with_cursor(Some(name), table).cursor_ref, i, name@) <==> i
                == b.cursor_ref.len(),
{
    let c = b.with_cursor(Some(name), table);
    assert forall|i: int| #[trigger] is_cursor_of(c.cursor_ref, i, name@) implies i
        == b.cursor_ref.len() by {
        if i < b.cursor_ref.len() {
            assert(!is_cursor_of(b.cursor_ref, i, name@));
        }
    }
}

/// Resolving a label in a linked program gives each instruction that held the label the position,
/// and leaves each of its other operands and every other instruction as it was: the label filled in
/// again gives the program back.
pub proof fn law_resolve_fills_positions_only(
    b: BuilderView,
    label: BranchOffset,
    to: BranchOffset,
    i: int,
)
    requires
        linked(b),
        b.is_label(label),
        to >= 0,
        0 <= i < b.insns.len(),
    ensures
        ({
            let after = b.resolved(label, to).insns[i];
            &&& after.kind_of() == b.insns[i].kind_of()
            &&& b.insns[i].target() == Some(label) ==> after.target() == Some(to)
                && after.with_target(label) == b.insns[i]
            &&& b.insns[i].target() != Some(label) ==> after == b.insns[i]
        }),
{
    law_linked_resolve(b, label, to);
    law_with_target(b.insns[i], to, to);
    assert(b.resolved(label, to).insns[i] == (if b.insns[i].target() == Some(label) {
        b.insns[i].with_target(to)
    } else {
        b.insns[i]
    }));
}

/// Resolutions that have been put off give each instruction that held a label of the list the
/// position that stands beside the label, where no label stands in the list twice; and leave the
/// others as they were.
pub proof fn law_deferred_positions(
    b: BuilderView,
    list: Seq<(BranchOffset, InsnReference)>,
    i: int,
)
    requires
        linked(b),
        all_labels(b, list),
        0 <= i < b.insns.len(),
        forall|j: int, k: int|
            0 <= j < k < list.len() ==> (#[trigger] list[j]).0 != (#[trigger] list[k]).0,
    ensures
        forall|k: int|
            0 <= k < list.len() && b.insns[i].target() == Some((#[trigger] list[k]).0)
                ==> b.all_resolved(list).insns[i] == b.insns[i].with_target(
                list[k].1 as BranchOffset,
            ),
        (forall|k: int| 0 <= k < list.len() ==> b.insns[i].target() != Some((#[trigger] list[k]).0))
            ==> b.all_resolved(list).insns[i] == b.insns[i],
    decreases list.len(),
{
    if list.len() > 0 {
        let rest = list.drop_last();
        let (label, at) = list.last();
        assert(list[list.len() - 1] == (label, at));
        assert forall|k: int| 0 <= k < rest.len() implies b.is_label((#[trigger] rest[k]).0)
            && rest[k].1 <= i64::MAX && rest[k] == list[k] && rest[k].0 != label by {
            assert(rest[k] == list[k]);
        }
        law_deferred_positions(b, rest, i);
        law_linked_deferred(b, rest);
        let c = b.all_resolved(rest);
        law_linked_resolve(c, label, at as BranchOffset);
        assert(b.all_resolved(list).insns[i] == (if c.insns[i].target() == Some(label) {
            c.insns[i].with_target(at as BranchOffset)
        } else {
            c.insns[i]
        }));
        if b.insns[i].target() == Some(label) {
            assert forall|k: int| 0 <= k < rest.len() implies b.insns[i].target() != Some(
                (#[trigger] rest[k]).0,
            ) by {}
            assert(c.insns[i] == b.insns[i]);
        }
        if exists|k: int| 0 <= k < rest.len() && b.insns[i].target() == Some((#[trigger] rest[k]).0) {
            let k = choose|k: int|
                0 <= k < rest.len() && b.insns[i].target() == Some((#[trigger] rest[k]).0);
            law_with_target(b.insns[i], rest[k].1 as BranchOffset, 0);
            assert(c.insns[i] == b.insns[i].with_target(rest[k].1 as BranchOffset));
            assert(c.insns[i].target() == Some(rest[k].1 as BranchOffset));
        } else {
            assert forall|k: int| 0 <= k < rest.len() implies b.insns[i].target() != Some(
                (#[trigger] rest[k]).0,
            ) by {}
            assert(c.insns[i] == b.insns[i]);
        }
        assert forall|k: int|
            0 <= k < list.len() && b.insns[i].target() == Some(
                (#[trigger] list[k]).0,
            ) implies b.all_resolved(list).insns[i] == b.insns[i].with_target(
            list[k].1 as BranchOffset,
        ) by {
            if k < rest.len() {
                assert(rest[k] == list[k]);
                assert(c.insns[i] == b.insns[i].with_target(rest[k].1 as BranchOffset));
            }
        }
        if forall|k: int|
            0 <= k < list.len() ==> b.insns[i].target() != Some((#[trigger] list[k]).0) {
            assert forall|k: int| 0 <= k < rest.len() implies b.insns[i].target() != Some(
                (#[trigger] rest[k]).0,
            ) by {
                assert(rest[k] == list[k]);
            }
            assert(c.insns[i] == b.insns[i]);
        }
    }
}

/// What each operation on a builder leaves as it is: registers and cursors have nothing to do with
/// instructions and labels, and a new label nothing with the labels that are there.
pub proof fn law_builder_parts(
    b: BuilderView,
    amount: int,
    name: Option<String>,
    table: Option<Table>,
    insn: Insn,
    label: BranchOffset,
    to: BranchOffset,
)
    ensures
        ({
            let c = b.allocating(amount);
            &&& c.insns == b.insns && c.constant_insns == b.constant_insns && c.cursor_ref
                == b.cursor_ref && c.deferred == b.deferred
            &&& c.unresolved_labels == b.unresolved_labels && c.next_insn_label
                == b.next_insn_label
        }),
        ({
            let c = b.with_cursor(name, table);
            &&& c.insns == b.insns && c.constant_insns == b.constant_insns && c.deferred
                == b.deferred && c.next_free_register == b.next_free_register
            &&& c.unresolved_labels == b.unresolved_labels && c.next_insn_label
                == b.next_insn_label
            &&& c.cursor_ref.drop_last() == b.cursor_ref && c.cursor_ref.last() == (name, table)
        }),
        ({
            let c = b.with_label();
            &&& c.insns == b.insns && c.constant_insns == b.constant_insns && c.cursor_ref
                == b.cursor_ref && c.deferred == b.deferred
            &&& c.next_free_register == b.next_free_register && c.next_insn_label
                == b.next_insn_label
            &&& c.unresolved_labels.drop_last() == b.unresolved_labels
                && c.unresolved_labels.last().len() == 0
        }),
        ({
            let c = b.pushed(insn);
            &&& c.insns.drop_last() == b.insns && c.insns.last() == insn
            &&& c.constant_insns == b.constant_insns && c.cursor_ref == b.cursor_ref && c.deferred
                == b.deferred && c.next_free_register == b.next_free_register
            &&& c.unresolved_labels == b.unresolved_labels && c.next_insn_label
                == b.next_insn_label
        }),
        ({
            let c = b.resolved(label, to);
            &&& c.constant_insns == b.constant_insns && c.cursor_ref == b.cursor_ref && c.deferred
                == b.deferred && c.next_free_register == b.next_free_register && c.next_insn_label
                == b.next_insn_label
            &&& forall|other: BranchOffset|
                b.is_label(label) && b.is_label(other) && other != label
                    ==> #[trigger] c.waiting_for(other) == b.waiting_for(other)
        }),
        ({
            let c = b.kept_back();
            &&& c.cursor_ref == b.cursor_ref && c.deferred == b.deferred && c.next_free_register
                == b.next_free_register && c.next_insn_label == b.next_insn_label
                && c.unresolved_labels == b.unresolved_labels
        }),
        ({
            let c = b.appended();
            &&& c.constant_insns.len() == 0 && c.cursor_ref == b.cursor_ref && c.deferred
                == b.deferred && c.next_free_register == b.next_free_register
            &&& c.unresolved_labels == b.unresolved_labels && c.next_insn_label
                == b.next_insn_label
        }),
        ({
            let c = b.landed(amount);
            &&& c.constant_insns == b.constant_insns && c.cursor_ref == b.cursor_ref && c.deferred
                == b.deferred && c.next_free_register == b.next_free_register
            &&& b.next_insn_label is None ==> c == b
        }),
{
    assert(b.with_cursor(name, table).cursor_ref.drop_last() =~= b.cursor_ref);
    assert(b.with_label().unresolved_labels.drop_last() =~= b.unresolved_labels);
    assert(b.pushed(insn).insns.drop_last() =~= b.insns);
}

/// Labels are counted downwards from -1, and no two labels have the same place.
pub proof fn law_labels_differ(j: int, k: int)
    requires
        0 <= j < i64::MAX,
        0 <= k < i64::MAX,
    ensures
        label_at(k) == -1 - k,
        label_index(label_at(k)) == k,
        label_at(j) == label_at(k) <==> j == k,
{
}

/// A cursor stands for a table just where it was allocated under the table's name, letter for
/// letter.
pub proof fn law_cursor_names(
    cursors: Seq<(Option<String>, Option<Table>)>,
    i: int,
    name: Seq<char>,
)
    ensures
        is_cursor_of(cursors, i, name) ==> 0 <= i < cursors.len() && cursors[i].0 is Some
            && cursors[i].0->0@ == name,
        0 <= i < cursors.len() && cursors[i].0 is Some && cursors[i].0->0@ == name
            ==> is_cursor_of(cursors, i, name),
{
}

/// An instruction that is emitted with a dependency on a label stands at the end and waits for that
/// label behind those that do; nothing else changes. Where no label is assigned to the next
/// instruction, emitting one is no more than this.
pub proof fn law_emitted_parts(b: BuilderView, insn: Insn, label: BranchOffset, at: InsnReference)
    requires
        b.is_label(label),
    ensures
        ({
            let c = b.pushed_waiting(insn, label);
            &&& c.insns == b.insns.push(insn)
            &&& c.waiting_for(label) == b.waiting_for(label).push(b.insns.len() as InsnReference)
            &&& forall|other: BranchOffset|
                b.is_label(other) && other != label ==> #[trigger] c.waiting_for(other)
                    == b.waiting_for(other)
            &&& c.unresolved_labels.len() == b.unresolved_labels.len()
            &&& c.constant_insns == b.constant_insns && c.cursor_ref == b.cursor_ref && c.deferred
                == b.deferred && c.next_free_register == b.next_free_register && c.next_insn_label
                == b.next_insn_label
        }),
        ({
            let c = b.depending(label, at);
            &&& c.waiting_for(label) == b.waiting_for(label).push(at)
            &&& forall|other: BranchOffset|
                b.is_label(other) && other != label ==> #[trigger] c.waiting_for(other)
                    == b.waiting_for(other)
            &&& c.insns == b.insns && c.constant_insns == b.constant_insns && c.cursor_ref
                == b.cursor_ref && c.deferred == b.deferred && c.next_free_register
                == b.next_free_register && c.next_insn_label == b.next_insn_label
        }),
        b.next_insn_label is None ==> {
            &&& b.emitted(insn) == b.pushed(insn)
            &&& b.emitted_waiting(insn, label) == b.pushed_waiting(insn, label)
        },
{
}

/// Filling in a position changes the instructions that are named, and no others; and no more of
/// them than the position.
pub proof fn law_filled(insns: Seq<Insn>, refs: Seq<InsnReference>, to: BranchOffset, i: usize)
    requires
        i < insns.len(),
    ensures
        filled(insns, refs, to).len() == insns.len(),
        refs.contains(i) && insns[i as int].target() is Some ==> {
            let after = filled(insns, refs, to)[i as int];
            &&& after.target() == Some(to)
            &&& after.with_target(insns[i as int].target()->0) == insns[i as int]
        },
        !refs.contains(i) ==> filled(insns, refs, to)[i as int] == insns[i as int],
{
    law_with_target(insns[i as int], to, to);
}

/// A label that has been resolved stays resolved: to resolve it once more, be it to another
/// position, changes nothing.
pub proof fn law_resolving_again(
    b: BuilderView,
    label: BranchOffset,
    to: BranchOffset,
    again: BranchOffset,
)
    requires
        b.is_label(label),
    ensures
        b.resolved(label, to).resolved(label, again) == b.resolved(label, to),
{
    let c = b.resolved(label, to);
    assert(c.waiting_for(label).len() == 0);
    assert(c.resolved(label, again).insns =~= c.insns);
    assert(c.resolved(label, again).unresolved_labels =~= c.unresolved_labels);
}

/// Resolutions that have been put off are carried out one after the other, in the order in which
/// they were put off.
pub proof fn law_deferred_in_order(
    b: BuilderView,
    list: Seq<(BranchOffset, InsnReference)>,
    label: BranchOffset,
    at: InsnReference,
)
    ensures
        b.all_resolved(Seq::empty()) == b,
        b.all_resolved(list.push((label, at))) == b.all_resolved(list).resolved(
            label,
            at as BranchOffset,
        ),
{
    assert(list.push((label, at)).drop_last() =~= list);
}

} // verus!
