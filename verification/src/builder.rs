//! Building programs: allocating registers, labels and cursors, emitting instructions and filling
//! in the positions that they jump to.

use vstd::prelude::*;
use crate::insn::{Insn, InsnKind};
use crate::program::Program;
use crate::schema::Table;
use crate::{BranchOffset, CursorID};

verus! {

/// The index of an instruction in a program.
pub type InsnReference = usize;

/// A program in the making.
pub struct ProgramBuilder {
    next_free_register: usize,
    next_free_label: BranchOffset,
    next_free_cursor_id: usize,
    insns: Vec<Insn>,
    // Instructions that are kept back to be put at the end of the program.
    constant_insns: Vec<Insn>,
    // For each label, the instructions that wait for it to be resolved.
    unresolved_labels: Vec<Vec<InsnReference>>,
    next_insn_label: Option<BranchOffset>,
    // The cursors that the program refers to, by their ids.
    cursor_ref: Vec<(Option<String>, Option<Table>)>,
    // Labels with the positions that they are to be resolved to later.
    deferred_label_resolutions: Vec<(BranchOffset, InsnReference)>,
}

/// What a `ProgramBuilder` holds.
#[verifier::ext_equal]
pub struct BuilderView {
    /// The register that is allocated next.
    pub next_free_register: usize,
    /// The instructions emitted so far.
    pub insns: Seq<Insn>,
    /// The instructions that are kept back.
    pub constant_insns: Seq<Insn>,
    /// The instructions that wait for each label; see `label_index`.
    pub unresolved_labels: Seq<Seq<InsnReference>>,
    /// The label that the next instruction emitted resolves.
    pub next_insn_label: Option<BranchOffset>,
    /// The cursors allocated so far.
    pub cursor_ref: Seq<(Option<String>, Option<Table>)>,
    /// The resolutions that have been put off.
    pub deferred: Seq<(BranchOffset, InsnReference)>,
}

/// Where a label stands among all labels: the first label is -1, the second -2, and so on.
pub open spec fn label_index(label: BranchOffset) -> int {
    if label < 0 {
        -label - 1
    } else {
        label - 1
    }
}

/// `insns` with `to` as the position that the instructions `refs` jump to.
pub open spec fn filled(insns: Seq<Insn>, refs: Seq<InsnReference>, to: BranchOffset) -> Seq<Insn> {
    Seq::new(
        insns.len(),
        |i: int|
            if refs.contains(i as usize) {
                insns[i].with_target(to)
            } else {
                insns[i]
            },
    )
}

/// Tells whether cursor `i` stands for the table that the program calls `name`.
pub open spec fn is_cursor_of(
    cursors: Seq<(Option<String>, Option<Table>)>,
    i: int,
    name: Seq<char>,
) -> bool {
    0 <= i < cursors.len() && (cursors[i].0 matches Some(s) && s@ == name)
}

impl BuilderView {
    /// `amount` registers more.
    pub open spec fn allocating(self, amount: int) -> BuilderView {
        BuilderView { next_free_register: (self.next_free_register + amount) as usize, ..self }
    }

    /// `amount` registers less.
    pub open spec fn dropping(self, amount: int) -> BuilderView {
        BuilderView { next_free_register: (self.next_free_register - amount) as usize, ..self }
    }

    /// One cursor more.
    pub open spec fn with_cursor(self, name: Option<String>, table: Option<Table>) -> BuilderView {
        BuilderView { cursor_ref: self.cursor_ref.push((name, table)), ..self }
    }

    /// The last instruction kept back.
    pub open spec fn kept_back(self) -> BuilderView {
        BuilderView {
            insns: self.insns.drop_last(),
            constant_insns: self.constant_insns.push(self.insns.last()),
            ..self
        }
    }

    /// The instructions that were kept back, at the end of the others.
    pub open spec fn appended(self) -> BuilderView {
        BuilderView {
            insns: self.insns + self.constant_insns,
            constant_insns: Seq::empty(),
            ..self
        }
    }

    /// The instructions that were kept back, emitted. The first one of them, if there is one, is
    /// the next instruction: the label that was assigned to it is resolved to its position.
    pub open spec fn with_constants(self) -> BuilderView {
        if self.constant_insns.len() == 0 {
            self.appended()
        } else {
            self.appended().landed(self.insns.len() as int)
        }
    }

    /// Tells whether `label` has been allocated.
    pub open spec fn is_label(self, label: BranchOffset) -> bool {
        label < 0 && label_index(label) < self.unresolved_labels.len()
    }

    /// The instructions that wait for `label`.
    pub open spec fn waiting_for(self, label: BranchOffset) -> Seq<InsnReference> {
        self.unresolved_labels[label_index(label)]
    }

    /// Tells whether `label` can be resolved: every instruction that waits for it exists, has a
    /// place that is still to be filled, and waits for it once.
    pub open spec fn is_resolvable(self, label: BranchOffset) -> bool {
        &&& self.is_label(label)
        &&& self.waiting_for(label).no_duplicates()
        &&& forall|k: int|
            0 <= k < self.waiting_for(label).len() ==> (#[trigger] self.waiting_for(label)[k])
                < self.insns.len() && self.insns[self.waiting_for(label)[k] as int].is_pending()
    }

    /// `label` stands for `to` from now on: the instructions that waited for it jump there, and
    /// none waits any more.
    pub open spec fn resolved(self, label: BranchOffset, to: BranchOffset) -> BuilderView {
        BuilderView {
            insns: filled(self.insns, self.waiting_for(label), to),
            unresolved_labels: self.unresolved_labels.update(label_index(label), Seq::empty()),
            ..self
        }
    }

    /// The label that was assigned to the next instruction, if there is one, resolved to `at`,
    /// where that instruction stands.
    pub open spec fn landed(self, at: int) -> BuilderView {
        match self.next_insn_label {
            Some(label) => BuilderView { next_insn_label: None, ..self }.resolved(
                label,
                at as BranchOffset,
            ),
            None => self,
        }
    }

    /// Tells whether the label that was assigned to the next instruction, if there is one, can be
    /// resolved.
    pub open spec fn can_land(self) -> bool {
        self.next_insn_label matches Some(label) ==> self.is_resolvable(label)
    }

    /// One instruction more.
    pub open spec fn pushed(self, insn: Insn) -> BuilderView {
        BuilderView { insns: self.insns.push(insn), ..self }
    }

    /// One instruction more, and the label that was assigned to the next instruction, if there is
    /// one, resolved to its position.
    pub open spec fn emitted(self, insn: Insn) -> BuilderView {
        self.pushed(insn).landed(self.insns.len() as int)
    }

    /// One instruction more, which waits for `label`, and the label that was assigned to the next
    /// instruction, if there is one, resolved to its position.
    pub open spec fn emitted_waiting(self, insn: Insn, label: BranchOffset) -> BuilderView {
        self.pushed_waiting(insn, label).landed(self.insns.len() as int)
    }

    /// One instruction more, which waits for `label`.
    pub open spec fn pushed_waiting(self, insn: Insn, label: BranchOffset) -> BuilderView {
        self.pushed(insn).depending(label, self.insns.len() as InsnReference)
    }

    /// One more instruction that waits for `label`.
    pub open spec fn depending(self, label: BranchOffset, insn: InsnReference) -> BuilderView {
        BuilderView {
            unresolved_labels: self.unresolved_labels.update(
                label_index(label),
                self.waiting_for(label).push(insn),
            ),
            ..self
        }
    }

    /// One label more, for which no instruction waits.
    pub open spec fn with_label(self) -> BuilderView {
        BuilderView { unresolved_labels: self.unresolved_labels.push(Seq::empty()), ..self }
    }

    /// Tells whether all of `list`, labels with positions, can be resolved one after the other.
    pub open spec fn all_resolvable(self, list: Seq<(BranchOffset, InsnReference)>) -> bool
        decreases list.len(),
    {
        list.len() > 0 ==> {
            &&& self.all_resolvable(list.drop_last())
            &&& self.all_resolved(list.drop_last()).is_resolvable(list.last().0)
            &&& list.last().1 <= i64::MAX
        }
    }

    /// All of `list`, labels with positions, resolved one after the other.
    pub open spec fn all_resolved(self, list: Seq<(BranchOffset, InsnReference)>) -> BuilderView
        decreases list.len(),
    {
        if list.len() == 0 {
            self
        } else {
            self.all_resolved(list.drop_last()).resolved(
                list.last().0,
                list.last().1 as BranchOffset,
            )
        }
    }
}

/// The waiting instructions of each label.
pub open spec fn lists_view(lists: Seq<Vec<InsnReference>>) -> Seq<Seq<InsnReference>> {
    Seq::new(lists.len(), |i: int| lists[i]@)
}

impl View for ProgramBuilder {
    type V = BuilderView;

    closed spec fn view(&self) -> BuilderView {
        BuilderView {
            next_free_register: self.next_free_register,
            insns: self.insns@,
            constant_insns: self.constant_insns@,
            unresolved_labels: lists_view(self.unresolved_labels@),
            next_insn_label: self.next_insn_label,
            cursor_ref: self.cursor_ref@,
            deferred: self.deferred_label_resolutions@,
        }
    }
}

impl ProgramBuilder {
    /// The builder's counters agree with what it holds.
    pub closed spec fn wf(&self) -> bool {
        &&& self.next_free_cursor_id == self.cursor_ref@.len()
        &&& self.next_free_label == -self.unresolved_labels@.len()
    }

    /// A builder for a program without instructions. Register 0 is not handed out.
    pub fn new() -> (builder: Self)
        ensures
            builder.wf(),
            builder@ == (BuilderView {
                next_free_register: 1,
                insns: Seq::empty(),
                constant_insns: Seq::empty(),
                unresolved_labels: Seq::empty(),
                next_insn_label: None,
                cursor_ref: Seq::empty(),
                deferred: Seq::empty(),
            }),
    {
        let builder = ProgramBuilder {
            next_free_register: 1,
            next_free_label: 0,
            next_free_cursor_id: 0,
            insns: Vec::new(),
            constant_insns: Vec::new(),
            unresolved_labels: Vec::new(),
            next_insn_label: None,
            cursor_ref: Vec::new(),
            deferred_label_resolutions: Vec::new(),
        };
        assert(builder@.unresolved_labels =~= Seq::empty());
        builder
    }

    /// Allocates a register.
    pub fn alloc_register(&mut self) -> (reg: usize)
        requires
            old(self).wf(),
            old(self)@.next_free_register < usize::MAX,
        ensures
            final(self).wf(),
            reg == old(self)@.next_free_register,
            final(self)@ == old(self)@.allocating(1),
    {
        let reg: usize = self.next_free_register;
        self.next_free_register = self.next_free_register + 1;
        reg
    }

    /// Allocates `amount` registers in a row and returns the first.
    pub fn alloc_registers(&mut self, amount: usize) -> (reg: usize)
        requires
            old(self).wf(),
            old(self)@.next_free_register + amount <= usize::MAX,
        ensures
            final(self).wf(),
            reg == old(self)@.next_free_register,
            final(self)@ == old(self)@.allocating(amount as int),
    {
        let reg: usize = self.next_free_register;
        self.next_free_register = self.next_free_register + amount;
        reg
    }

    /// Gives the last register back.
    pub fn drop_register(&mut self)
        requires
            old(self).wf(),
            old(self)@.next_free_register >= 1,
        ensures
            final(self).wf(),
            final(self)@ == old(self)@.dropping(1),
    {
        self.next_free_register = self.next_free_register - 1;
    }

    /// Gives the last `amount` registers back.
    pub fn drop_registers(&mut self, amount: usize)
        requires
            old(self).wf(),
            old(self)@.next_free_register >= amount,
        ensures
            final(self).wf(),
            final(self)@ == old(self)@.dropping(amount as int),
    {
        self.next_free_register = self.next_free_register - amount;
    }

    /// The register that is allocated next.
    pub fn next_free_register(&self) -> (reg: usize)
        ensures
            reg == self@.next_free_register,
    {
        self.next_free_register
    }

    /// Allocates a cursor, for the table that the program calls `table_identifier`.
    pub fn alloc_cursor_id(
        &mut self,
        table_identifier: Option<String>,
        table: Option<Table>,
    ) -> (cursor: usize)
        requires
            old(self).wf(),
            old(self)@.cursor_ref.len() < usize::MAX,
        ensures
            final(self).wf(),
            cursor == old(self)@.cursor_ref.len(),
            final(self)@ == old(self)@.with_cursor(table_identifier, table),
    {
        let cursor: usize = self.next_free_cursor_id;
        self.next_free_cursor_id = self.next_free_cursor_id + 1;
        self.cursor_ref.push((table_identifier, table));
        cursor
    }

    /// Resolves the label that was assigned to the next instruction, if there is one, to `at`,
    /// where that instruction stands.
    fn land(&mut self, at: usize)
        requires
            old(self).wf(),
            old(self)@.can_land(),
            old(self)@.next_insn_label is Some ==> at <= i64::MAX,
        ensures
            final(self).wf(),
            final(self)@ == old(self)@.landed(at as int),
    {
        if let Some(label) = self.next_insn_label {
            self.next_insn_label = None;
            let ghost before = self@;
            assert(before == (BuilderView { next_insn_label: None, ..old(self)@ }));
            assert(before.waiting_for(label) == old(self)@.waiting_for(label));
            assert(before.is_resolvable(label));
            self.resolve_label(label, at as BranchOffset);
        }
    }

    /// Emits an instruction. It resolves the label that was assigned to the next instruction, if
    /// there is one.
    pub fn emit_insn(&mut self, insn: Insn)
        requires
            old(self).wf(),
            old(self)@.insns.len() < i64::MAX,
            old(self)@.pushed(insn).can_land(),
        ensures
            final(self).wf(),
            final(self)@ == old(self)@.emitted(insn),
    {
        self.insns.push(insn);
        assert(self@ == old(self)@.pushed(insn));
        let at: usize = self.insns.len() - 1;
        self.land(at);
    }

    /// The last instruction emitted.
    pub fn last_insn(&self) -> (insn: Option<&Insn>)
        ensures
            match insn {
                Some(i) => self@.insns.len() > 0 && *i == self@.insns.last(),
                None => self@.insns.len() == 0,
            },
    {
        if self.insns.len() == 0 {
            None
        } else {
            Some(&self.insns[self.insns.len() - 1])
        }
    }

    /// The last instruction of the given kind.
    pub fn last_of_type(&self, typ: InsnKind) -> (insn: Option<&Insn>)
        ensures
            match insn {
                Some(i) => exists|k: int|
                    0 <= k < self@.insns.len() && *i == #[trigger] self@.insns[k] && i.kind_of()
                        == typ && (forall|j: int|
                        k < j < self@.insns.len() ==> (#[trigger] self@.insns[j]).kind_of() != typ),
                None => forall|j: int|
                    0 <= j < self@.insns.len() ==> (#[trigger] self@.insns[j]).kind_of() != typ,
            },
    {
        let mut i: usize = self.insns.len();
        while i > 0
            invariant
                i <= self.insns@.len(),
                forall|j: int|
                    i <= j < self.insns@.len() ==> (#[trigger] self.insns@[j]).kind_of() != typ,
            decreases i,
        {
            i = i - 1;
            if self.insns[i].kind() == typ {
                assert(self.insns@[i as int].kind_of() == typ);
                return Some(&self.insns[i]);
            }
        }
        None
    }

    /// Keeps the last instruction back, to be put at the end of the program (after the
    /// `Transaction` instruction). This is useful for instructions that would otherwise be repeated
    /// in a loop for nothing.
    pub fn mark_last_insn_constant(&mut self)
        requires
            old(self).wf(),
            old(self)@.insns.len() > 0,
        ensures
            final(self).wf(),
            final(self)@ == old(self)@.kept_back(),
    {
        if let Some(insn) = self.insns.pop() {
            self.constant_insns.push(insn);
            assert(self.insns@ =~= old(self).insns@.drop_last());
        }
    }

    /// Emits the instructions that were kept back. The first one resolves the label that was
    /// assigned to the next instruction, if there is one.
    pub fn emit_constant_insns(&mut self)
        requires
            old(self).wf(),
            old(self)@.constant_insns.len() > 0 ==> old(self)@.appended().can_land(),
            old(self)@.next_insn_label is Some ==> old(self)@.insns.len() <= i64::MAX,
        ensures
            final(self).wf(),
            final(self)@ == old(self)@.with_constants(),
    {
        let at: usize = self.insns.len();
        let some: bool = self.constant_insns.len() > 0;
        self.insns.append(&mut self.constant_insns);
        assert(self@ == old(self)@.appended());
        if some {
            self.land(at);
        }
    }

    /// Emits an instruction that waits for `label`. It resolves the label that was assigned to the
    /// next instruction, if there is one.
    pub fn emit_insn_with_label_dependency(&mut self, insn: Insn, label: BranchOffset)
        requires
            old(self).wf(),
            old(self)@.insns.len() < i64::MAX,
            old(self)@.is_label(label),
            old(self)@.pushed_waiting(insn, label).can_land(),
        ensures
            final(self).wf(),
            final(self)@ == old(self)@.emitted_waiting(insn, label),
    {
        self.insns.push(insn);
        assert(self@ == old(self)@.pushed(insn));
        let at: usize = self.insns.len() - 1;
        self.add_label_dependency(label, at as BranchOffset);
        self.land(at);
    }

    /// The position of the next instruction.
    pub fn offset(&self) -> (at: BranchOffset)
        requires
            self@.insns.len() <= i64::MAX,
        ensures
            at == self@.insns.len(),
    {
        self.insns.len() as BranchOffset
    }

    /// Allocates a label.
    pub fn allocate_label(&mut self) -> (label: BranchOffset)
        requires
            old(self).wf(),
            old(self)@.unresolved_labels.len() < i64::MAX,
        ensures
            final(self).wf(),
            label < 0,
            label_index(label) == old(self)@.unresolved_labels.len(),
            final(self)@ == old(self)@.with_label(),
    {
        self.next_free_label = self.next_free_label - 1;
        self.unresolved_labels.push(Vec::new());
        assert(self@.unresolved_labels =~= old(self)@.unresolved_labels.push(Seq::empty()));
        self.next_free_label
    }

    /// Assigns `label` to the next instruction: effectively a jump to it without the need to emit
    /// an instruction for the jump. Useful where the next part has to be jumped to, but its exact
    /// position is not known yet. One label can be assigned at a time: it takes the place of one
    /// that was assigned before and has not been resolved.
    pub fn preassign_label_to_next_insn(&mut self, label: BranchOffset)
        requires
            old(self).wf(),
        ensures
            final(self).wf(),
            final(self)@ == (BuilderView { next_insn_label: Some(label), ..old(self)@ }),
    {
        self.next_insn_label = Some(label);
    }

    /// Where a label stands among all labels.
    fn label_to_index(&self, label: BranchOffset) -> (index: usize)
        requires
            label != 0,
            label_index(label) <= usize::MAX,
        ensures
            index == label_index(label),
    {
        if label < 0 {
            (-(label + 1)) as usize
        } else {
            (label - 1) as usize
        }
    }

    /// Lets an instruction wait for `label`.
    pub fn add_label_dependency(&mut self, label: BranchOffset, insn_reference: BranchOffset)
        requires
            old(self).wf(),
            0 <= insn_reference <= usize::MAX,
            old(self)@.is_label(label),
        ensures
            final(self).wf(),
            final(self)@ == old(self)@.depending(label, insn_reference as InsnReference),
    {
        assert(label_index(label) < self.unresolved_labels.len());
        let index: usize = self.label_to_index(label);
        self.unresolved_labels[index].push(insn_reference as InsnReference);
        assert(self@.unresolved_labels =~= old(self)@.depending(
            label,
            insn_reference as InsnReference,
        ).unresolved_labels);
    }

    /// Puts the resolution of `label` off until `resolve_deferred_labels`.
    pub fn defer_label_resolution(&mut self, label: BranchOffset, insn_reference: InsnReference)
        requires
            old(self).wf(),
        ensures
            final(self).wf(),
            final(self)@ == (BuilderView {
                deferred: old(self)@.deferred.push((label, insn_reference)),
                ..old(self)@
            }),
    {
        self.deferred_label_resolutions.push((label, insn_reference));
    }

    /// Lets `label` stand for the position `to_offset`: the instructions that wait for it jump
    /// there.
    pub fn resolve_label(&mut self, label: BranchOffset, to_offset: BranchOffset)
        requires
            old(self).wf(),
            to_offset >= 0,
            old(self)@.is_resolvable(label),
        ensures
            final(self).wf(),
            final(self)@ == old(self)@.resolved(label, to_offset),
    {
        assert(label_index(label) < self.unresolved_labels.len());
        let index: usize = self.label_to_index(label);
        let ghost refs = self@.waiting_for(label);
        let ghost before = self.insns@;
        assert(before.len() == self.insns.len());
        assert(refs == self.unresolved_labels@[index as int]@);
        assert(filled(before, refs.take(0), to_offset) =~= before);
        let mut k: usize = 0;
        while k < self.unresolved_labels[index].len()
            invariant
                index < self.unresolved_labels@.len(),
                refs == self.unresolved_labels@[index as int]@,
                k <= refs.len(),
                before.len() <= usize::MAX,
                refs.no_duplicates(),
                forall|j: int|
                    0 <= j < refs.len() ==> (#[trigger] refs[j]) < before.len()
                        && before[refs[j] as int].is_pending(),
                self.insns@ == filled(before, refs.take(k as int), to_offset),
                self.next_free_register == old(self).next_free_register,
                self.next_free_label == old(self).next_free_label,
                self.next_free_cursor_id == old(self).next_free_cursor_id,
                self.constant_insns == old(self).constant_insns,
                self.unresolved_labels == old(self).unresolved_labels,
                self.next_insn_label == old(self).next_insn_label,
                self.cursor_ref == old(self).cursor_ref,
                self.deferred_label_resolutions == old(self).deferred_label_resolutions,
            decreases refs.len() - k,
        {
            let at: usize = self.unresolved_labels[index][k];
            let ghost done = self.insns@;
            assert(at == refs[k as int]);
            assert(!refs.take(k as int).contains(at)) by {
                if refs.take(k as int).contains(at) {
                    let j = choose|j: int| 0 <= j < k && refs.take(k as int)[j] == at;
                    assert(refs[j] == refs[k as int]);
                }
            }
            self.insns[at].set_target(to_offset);
            proof {
                let more = refs.take(k + 1);
                assert(more =~= refs.take(k as int).push(at));
                assert forall|i: int| 0 <= i < before.len() implies self.insns@[i] == filled(
                    before,
                    more,
                    to_offset,
                )[i] by {
                    if more.contains(i as usize) {
                        let j = choose|j: int| 0 <= j < more.len() && more[j] == i as usize;
                        if j < k {
                            assert(refs.take(k as int)[j] == i as usize);
                        }
                    }
                    if i == at {
                        assert(more[k as int] == at);
                    } else if refs.take(k as int).contains(i as usize) {
                        let j = choose|j: int|
                            0 <= j < k && refs.take(k as int)[j] == i as usize;
                        assert(more[j] == i as usize);
                    }
                }
                assert(self.insns@ =~= filled(before, more, to_offset));
            }
            k = k + 1;
        }
        assert(refs.take(k as int) =~= refs);
        self.unresolved_labels[index].clear();
        assert(self@.unresolved_labels =~= old(self)@.unresolved_labels.update(
            label_index(label),
            Seq::empty(),
        ));
    }

    /// The cursor for the table that the program calls `table_identifier`: the one that is given as
    /// a hint, or else the first one allocated for that table.
    pub fn resolve_cursor_id(
        &self,
        table_identifier: &str,
        cursor_hint: Option<CursorID>,
    ) -> (cursor: CursorID)
        requires
            cursor_hint is Some || exists|i: int|
                #[trigger] is_cursor_of(self@.cursor_ref, i, table_identifier@),
        ensures
            match cursor_hint {
                Some(hint) => cursor == hint,
                None => is_cursor_of(self@.cursor_ref, cursor as int, table_identifier@) && (forall|
                    i: int,
                |
                    0 <= i < cursor ==> !#[trigger] is_cursor_of(
                        self@.cursor_ref,
                        i,
                        table_identifier@,
                    )),
            },
    {
        if let Some(hint) = cursor_hint {
            return hint;
        }
        let mut i: usize = 0;
        let name: String = table_identifier.to_owned();
        while i < self.cursor_ref.len()
            invariant
                i <= self.cursor_ref@.len(),
                cursor_hint is None,
                name@ == table_identifier@,
                exists|j: int| #[trigger] is_cursor_of(self.cursor_ref@, j, table_identifier@),
                forall|j: int|
                    0 <= j < i ==> !#[trigger] is_cursor_of(
                        self.cursor_ref@,
                        j,
                        table_identifier@,
                    ),
            decreases self.cursor_ref.len() - i,
        {
            if let Some(ident) = &self.cursor_ref[i].0 {
                if *ident == name {
                    assert(is_cursor_of(self.cursor_ref@, i as int, table_identifier@));
                    return i;
                }
            }
            i = i + 1;
        }
        assert(false);
        0
    }

    /// Carries out the resolutions that have been put off, in the order in which they were.
    pub fn resolve_deferred_labels(&mut self)
        requires
            old(self).wf(),
            old(self)@.all_resolvable(old(self)@.deferred),
        ensures
            final(self).wf(),
            final(self)@ == (BuilderView {
                deferred: Seq::empty(),
                ..old(self)@.all_resolved(old(self)@.deferred)
            }),
    {
        let ghost start = self@;
        let ghost list = self@.deferred;
        let mut i: usize = 0;
        assert(list.take(0) =~= Seq::empty());
        while i < self.deferred_label_resolutions.len()
            invariant
                self.wf(),
                i <= list.len(),
                self.deferred_label_resolutions@ == list,
                start.all_resolvable(list),
                self@ == start.all_resolved(list.take(i as int)),
            decreases list.len() - i,
        {
            let (label, at) = self.deferred_label_resolutions[i];
            proof {
                lemma_prefix_resolvable(start, list, i + 1);
                assert(list.take(i + 1).drop_last() =~= list.take(i as int));
                assert(list.take(i + 1).last() == (label, at));
                lemma_resolved_keeps_deferred(start, list.take(i + 1));
            }
            self.resolve_label(label, at as BranchOffset);
            i = i + 1;
        }
        assert(list.take(i as int) =~= list);
        self.deferred_label_resolutions.clear();
    }

    /// The finished program.
    pub fn build(self) -> (program: Program)
        requires
            self@.deferred.len() == 0,
            self@.constant_insns.len() == 0,
        ensures
            program.max_registers == self@.next_free_register,
            program.insns@ == self@.insns,
            program.cursor_ref@ == self@.cursor_ref,
    {
        Program {
            max_registers: self.next_free_register,
            insns: self.insns,
            cursor_ref: self.cursor_ref,
        }
    }
}

/// What can be resolved as a whole can be resolved up to any point.
proof fn lemma_prefix_resolvable(
    b: BuilderView,
    list: Seq<(BranchOffset, InsnReference)>,
    n: int,
)
    requires
        b.all_resolvable(list),
        0 <= n <= list.len(),
    ensures
        b.all_resolvable(list.take(n)),
    decreases list.len(),
{
    if n == list.len() {
        assert(list.take(n) =~= list);
    } else {
        lemma_prefix_resolvable(b, list.drop_last(), n);
        assert(list.drop_last().take(n) =~= list.take(n));
    }
}

/// Resolving labels does not touch the resolutions that have been put off.
proof fn lemma_resolved_keeps_deferred(b: BuilderView, list: Seq<(BranchOffset, InsnReference)>)
    ensures
        b.all_resolved(list).deferred == b.deferred,
    decreases list.len(),
{
    if list.len() > 0 {
        lemma_resolved_keeps_deferred(b, list.drop_last());
    }
}

} // verus!
