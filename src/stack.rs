use vstd::prelude::*;
use crate::sequence::{
    brushes_of, built_brushes, built_texts, flatten, ids_carried, rebuild_ops, rebuilt_texts, slot_keys, teardown_ops, ids_distinct, ids_wf, seq_message_result, seq_wf, texts_of, SeqState,
    ZStackSequence,
};
use crate::zstack::{keys_of, AnyView, MessageResult, SpliceOp, StackSplice, ViewCtx, ZStack, ZStackElement};

verus! {

/// A view whose children overlap, drawn in the order of its sequence.
pub struct Stack {
    sequence: ZStackSequence,
}

/// A stack of the views of `sequence`.
pub fn zstack(sequence: ZStackSequence) -> (r: Stack)
    ensures
        r.views() == sequence.views@,
{
    Stack { sequence }
}

impl Stack {
    pub closed spec fn views(&self) -> Seq<Option<AnyView>> {
        self.sequence.views@
    }

    pub fn sequence(&self) -> (r: &ZStackSequence)
        ensures
            r.views@ == self.views(),
    {
        &self.sequence
    }

    /// Builds the stack widget with the element of each present view as a
    /// child, in order.
    pub fn build(&self, ctx: &mut ViewCtx) -> (r: (ZStack, SeqState))
        requires
            old(ctx).next_id_view() + self.views().len() <= u64::MAX,
        ensures
            seq_wf(self.views(), r.1.ids_view(), r.0.children_view(), final(ctx).next_id_view()),
            texts_of(r.0.children_view()) == built_texts(self.views()),
            brushes_of(r.0.children_view()) == built_brushes(self.views()),
            forall|k: int| 0 <= k < r.1.ids_view().len() && (#[trigger] r.1.ids_view()[k]) is Some
                ==> old(ctx).next_id_view() <= r.1.ids_view()[k].unwrap(),
            old(ctx).next_id_view() <= final(ctx).next_id_view(),
    {
        let mut elements: Vec<ZStackElement> = Vec::new();
        let seq_state = self.sequence.seq_build(ctx, &mut elements);
        let ghost built = elements@;
        assert(built.subrange(0, built.len() as int) =~= built);
        let mut widget = ZStack::new();
        let mut i: usize = 0;
        let n = elements.len();
        while elements.len() > 0
            invariant
                built.len() == n,
                0 <= i <= n,
                elements@ == built.subrange(i as int, n as int),
                widget.children_view() == built.subrange(0, i as int),
            decreases elements@.len(),
        {
            let child = elements.remove(0);
            widget = widget.with_child_pod(child);
            i = i + 1;
            assert(widget.children_view() =~= built.subrange(0, i as int));
            assert(elements@ =~= built.subrange(i as int, n as int));
        }
        assert(widget.children_view() =~= built);
        (widget, seq_state)
    }

    /// Brings the stack widget built from `prev` up to date with this view,
    /// returning the edits it made to the children.
    pub fn rebuild(&self, prev: &Stack, view_state: &mut SeqState, ctx: &mut ViewCtx, element: &mut ZStack) -> (ops: Ghost<Seq<SpliceOp>>)
        requires
            seq_wf(prev.views(), old(view_state).ids_view(), old(element).children_view(), old(ctx).next_id_view()),
            old(ctx).next_id_view() + self.views().len() <= u64::MAX,
            prev.views().len() + self.views().len() < usize::MAX,
        ensures
            seq_wf(self.views(), final(view_state).ids_view(), final(element).children_view(), final(ctx).next_id_view()),
            final(view_state).ids_view().len() == self.views().len(),
            ids_carried(prev.views(), self.views(), old(view_state).ids_view(), final(view_state).ids_view(),
                old(ctx).next_id_view(), final(ctx).next_id_view()),
            texts_of(final(element).children_view()) == flatten(rebuilt_texts(prev.views(), self.views(),
                slot_keys(prev.views(), old(view_state).ids_view()), texts_of(old(element).children_view()),
                self.views().len())),
            old(ctx).next_id_view() <= final(ctx).next_id_view(),
            ops@ == rebuild_ops(prev.views(), self.views()),
    {
        let mut splice = StackSplice::new(element);
        self.sequence.seq_rebuild(&prev.sequence, view_state, ctx, &mut splice);
        assert(Seq::<SpliceOp>::empty() + rebuild_ops(prev.views(), self.views()) =~= rebuild_ops(prev.views(), self.views()));
        Ghost(splice.ops@)
    }

    /// Tears down every view of the stack on its element; the elements stay
    /// for the caller to remove with the stack. Returns the edits made.
    pub fn teardown(&self, view_state: &mut SeqState, ctx: &mut ViewCtx, element: &mut ZStack) -> (ops: Ghost<Seq<SpliceOp>>)
        requires
            seq_wf(self.views(), old(view_state).ids_view(), old(element).children_view(), old(ctx).next_id_view()),
        ensures
            final(element).children_view().len() == old(element).children_view().len(),
            keys_of(final(element).children_view()) == keys_of(old(element).children_view()),
            texts_of(final(element).children_view()) == texts_of(old(element).children_view()),
            forall|j: int| 0 <= j < final(element).children_view().len()
                ==> !(#[trigger] final(element).children_view()[j]).state.is_focused,
            final(view_state).ids_view() == old(view_state).ids_view(),
            ops@ == teardown_ops(self.views()),
    {
        let mut splice = StackSplice::new(element);
        self.sequence.seq_teardown(view_state, ctx, &mut splice);
        assert(Seq::<SpliceOp>::empty() + teardown_ops(self.views()) =~= teardown_ops(self.views()));
        Ghost(splice.ops@)
    }

    /// Routes a message to the view its path names.
    pub fn message(&self, view_state: &SeqState, id_path: &[u64], message: String, app_state: &mut Vec<String>) -> (r: MessageResult)
        requires
            view_state.ids_view().len() == self.views().len(),
            forall|k: int| 0 <= k < self.views().len() ==> ((#[trigger] view_state.ids_view()[k]) is Some <==> self.views()[k] is Some),
            ids_distinct(view_state.ids_view()),
        ensures
            seq_message_result(self.views(), view_state.ids_view(), id_path@, message@, old(app_state)@, r, final(app_state)@),
    {
        self.sequence.seq_message(view_state, id_path, message, app_state)
    }
}

} // verus!
