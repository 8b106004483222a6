use vstd::prelude::*;
use crate::textbox::TextBrush;
use crate::zstack::{
    keys_of, leaf_message, AnyView, MessageResult, Shape, SpliceOp, StackSplice, ViewCtx,
    ZStackElement,
};

verus! {

/// The present values of `s`, in order.
pub open spec fn flatten<T>(s: Seq<Option<T>>) -> Seq<T>
    decreases s.len(),
{
    if s.len() == 0 {
        Seq::empty()
    } else {
        let rest = flatten(s.drop_last());
        match s.last() {
            Some(x) => rest.push(x),
            None => rest,
        }
    }
}

/// The value of an option as a sequence of zero or one items.
pub open spec fn opt_seq<T>(o: Option<T>) -> Seq<T> {
    match o {
        Some(x) => seq![x],
        None => Seq::empty(),
    }
}

/// Appending a slot appends its value, if any.
pub proof fn lemma_flatten_push<T>(s: Seq<Option<T>>, x: Option<T>)
    ensures
        flatten(s.push(x)) == flatten(s) + opt_seq(x),
{
    assert(s.push(x).drop_last() =~= s);
    match x {
        Some(v) => assert(flatten(s).push(v) =~= flatten(s) + seq![v]),
        None => assert(flatten(s) =~= flatten(s) + Seq::<T>::empty()),
    }
}

/// Flattening distributes over concatenation.
pub proof fn lemma_flatten_append<T>(a: Seq<Option<T>>, b: Seq<Option<T>>)
    ensures
        flatten(a + b) == flatten(a) + flatten(b),
    decreases b.len(),
{
    if b.len() == 0 {
        assert(a + b =~= a);
        assert(flatten(a) + flatten(b) =~= flatten(a));
    } else {
        let b0 = b.drop_last();
        lemma_flatten_append(a, b0);
        assert(a + b =~= (a + b0).push(b.last()));
        assert(b =~= b0.push(b.last()));
        lemma_flatten_push(a + b0, b.last());
        lemma_flatten_push(b0, b.last());
        assert(flatten(a) + flatten(b0) + opt_seq(b.last()) =~= flatten(a) + (flatten(b0) + opt_seq(b.last())));
    }
}

/// Flattening never lengthens.
pub proof fn lemma_flatten_len<T>(s: Seq<Option<T>>)
    ensures
        flatten(s).len() <= s.len(),
    decreases s.len(),
{
    if s.len() > 0 {
        lemma_flatten_len(s.drop_last());
    }
}

/// The view at slot `i`, absent past the end.
pub open spec fn slot_at(views: Seq<Option<AnyView>>, i: int) -> Option<AnyView> {
    if 0 <= i < views.len() {
        views[i]
    } else {
        None
    }
}

/// The identifier at slot `i`, absent past the end.
pub open spec fn id_at(ids: Seq<Option<u64>>, i: int) -> Option<u64> {
    if 0 <= i < ids.len() {
        ids[i]
    } else {
        None
    }
}

/// The key of the element a slot owns, if any.
pub open spec fn slot_key(v: Option<AnyView>, id: Option<u64>) -> Option<(u64, Shape)> {
    match (v, id) {
        (Some(v), Some(id)) => Some((id, v.shape())),
        _ => None,
    }
}

/// For each slot, the identity and shape of the element it owns, if any.
pub open spec fn slot_keys(views: Seq<Option<AnyView>>, ids: Seq<Option<u64>>) -> Seq<Option<(u64, Shape)>> {
    Seq::new(ids.len(), |i: int| slot_key(slot_at(views, i), ids[i]))
}

/// The slot keys from slot `i` on.
pub open spec fn tail_keys(ok: Seq<Option<(u64, Shape)>>, i: int) -> Seq<(u64, Shape)> {
    if 0 <= i < ok.len() {
        flatten(ok.subrange(i, ok.len() as int))
    } else {
        Seq::empty()
    }
}

/// Whether the element of slot `p` can be updated in place to show `n`.
pub open spec fn reusable(p: Option<AnyView>, n: Option<AnyView>) -> bool {
    &&& p is Some
    &&& n is Some
    &&& p.unwrap().shape() == n.unwrap().shape()
}

/// No identifier is owned by two slots.
pub open spec fn ids_distinct(ids: Seq<Option<u64>>) -> bool {
    forall|a: int, b: int|
        0 <= a < ids.len() && 0 <= b < ids.len() && a != b && (#[trigger] ids[a]) is Some && (#[trigger] ids[b]) is Some
            ==> ids[a] != ids[b]
}

/// The identifiers of a sequence's slots: one for each present view, each
/// below the next one to hand out, none shared.
pub open spec fn ids_wf(views: Seq<Option<AnyView>>, ids: Seq<Option<u64>>, next_id: u64) -> bool {
    &&& ids.len() == views.len()
    &&& forall|k: int| 0 <= k < ids.len() ==> ((#[trigger] ids[k]) is Some <==> views[k] is Some)
    &&& forall|k: int| 0 <= k < ids.len() && (#[trigger] ids[k]) is Some ==> ids[k].unwrap() < next_id
    &&& ids_distinct(ids)
}

/// A built sequence: its identifiers are well formed and the children of the
/// stack are, in order, the elements of its present slots.
pub open spec fn seq_wf(views: Seq<Option<AnyView>>, ids: Seq<Option<u64>>, children: Seq<ZStackElement>, next_id: u64) -> bool {
    &&& ids_wf(views, ids, next_id)
    &&& keys_of(children) == flatten(slot_keys(views, ids))
}

/// How the identifiers of the first `new_ids.len()` slots carry over a rebuild
/// from `prev` to `next`: a reused slot keeps its identifier, a slot built anew
/// gets one from `[from, to)`, an empty slot has none.
pub open spec fn ids_carried(
    prev: Seq<Option<AnyView>>,
    next: Seq<Option<AnyView>>,
    old_ids: Seq<Option<u64>>,
    new_ids: Seq<Option<u64>>,
    from: u64,
    to: u64,
) -> bool {
    &&& new_ids.len() <= next.len()
    &&& forall|k: int| 0 <= k < new_ids.len() ==> {
        &&& ((#[trigger] new_ids[k]) is Some <==> next[k] is Some)
        &&& reusable(slot_at(prev, k), next[k]) ==> new_ids[k] == id_at(old_ids, k)
        &&& (next[k] is Some && !reusable(slot_at(prev, k), next[k])) ==> from <= new_ids[k].unwrap() < to
    }
}

/// The edits for one slot of a rebuild.
pub open spec fn slot_ops(p: Option<AnyView>, n: Option<AnyView>) -> Seq<SpliceOp> {
    match (p, n) {
        (Some(pv), Some(nv)) => if pv.shape() == nv.shape() {
            seq![SpliceOp::Mutate]
        } else {
            seq![SpliceOp::Teardown, SpliceOp::Delete, SpliceOp::Insert]
        },
        (Some(_), None) => seq![SpliceOp::Teardown, SpliceOp::Delete],
        (None, Some(_)) => seq![SpliceOp::Insert],
        (None, None) => Seq::empty(),
    }
}

/// The edits of a rebuild from `prev` to `next` over their first `i` slots.
pub open spec fn rebuild_ops_upto(prev: Seq<Option<AnyView>>, next: Seq<Option<AnyView>>, i: nat) -> Seq<SpliceOp>
    decreases i,
{
    if i == 0 {
        Seq::empty()
    } else {
        rebuild_ops_upto(prev, next, (i - 1) as nat) + slot_ops(slot_at(prev, i - 1), slot_at(next, i - 1))
    }
}

/// The edits of a rebuild from `prev` to `next`, slot by slot.
pub open spec fn rebuild_ops(prev: Seq<Option<AnyView>>, next: Seq<Option<AnyView>>) -> Seq<SpliceOp> {
    rebuild_ops_upto(prev, next, if prev.len() < next.len() { next.len() } else { prev.len() })
}

/// Access to `n` elements in turn, each torn down, none removed.
pub open spec fn teardown_steps(n: nat) -> Seq<SpliceOp>
    decreases n,
{
    if n == 0 {
        Seq::empty()
    } else {
        teardown_steps((n - 1) as nat) + seq![SpliceOp::Mutate, SpliceOp::Teardown]
    }
}

/// The edits of a teardown: each element, in order, is torn down once and
/// none is removed.
pub open spec fn teardown_ops(views: Seq<Option<AnyView>>) -> Seq<SpliceOp> {
    teardown_steps(flatten(views).len())
}

/// The text of the element each present view builds.
pub open spec fn built_texts(views: Seq<Option<AnyView>>) -> Seq<Seq<char>> {
    flatten(views.map_values(|o: Option<AnyView>| match o {
        Some(v) => Some(v.text_view()),
        None => None,
    }))
}

/// The text of each child, in order.
/// The brushes of the element each present view builds.
pub open spec fn built_brushes(views: Seq<Option<AnyView>>) -> Seq<(TextBrush, TextBrush)> {
    flatten(views.map_values(|o: Option<AnyView>| match o {
        Some(v) => Some((v.brush_view(), v.brush_view())),
        None => None,
    }))
}

/// The brushes of each child, in order.
pub open spec fn brushes_of(children: Seq<ZStackElement>) -> Seq<(TextBrush, TextBrush)> {
    children.map_values(|c: ZStackElement| c.widget.brushes())
}

pub open spec fn texts_of(children: Seq<ZStackElement>) -> Seq<Seq<char>> {
    children.map_values(|c: ZStackElement| c.widget.text_view())
}

/// The keys from slot `i` on are those of slot `i` followed by those from `i + 1` on.
pub proof fn lemma_tail_step(ok: Seq<Option<(u64, Shape)>>, i: int)
    requires
        0 <= i,
    ensures
        tail_keys(ok, i) == opt_seq(if i < ok.len() { ok[i] } else { None }) + tail_keys(ok, i + 1),
{
    if i < ok.len() {
        let rest = ok.subrange(i + 1, ok.len() as int);
        assert(ok.subrange(i, ok.len() as int) =~= seq![ok[i]] + rest);
        lemma_flatten_append(seq![ok[i]], rest);
        assert(seq![ok[i]] =~= Seq::<Option<(u64, Shape)>>::empty().push(ok[i]));
        lemma_flatten_push(Seq::<Option<(u64, Shape)>>::empty(), ok[i]);
        assert(flatten(Seq::<Option<(u64, Shape)>>::empty()) =~= Seq::<(u64, Shape)>::empty());
        assert(Seq::<(u64, Shape)>::empty() + opt_seq(ok[i]) =~= opt_seq(ok[i]));
        if i + 1 == ok.len() {
            assert(rest =~= Seq::<Option<(u64, Shape)>>::empty());
            assert(opt_seq(ok[i]) + Seq::<(u64, Shape)>::empty() =~= opt_seq(ok[i]));
        }
    } else {
        assert(Seq::<(u64, Shape)>::empty() + Seq::<(u64, Shape)>::empty() =~= Seq::<(u64, Shape)>::empty());
    }
}

/// Removing a child removes its key.
pub proof fn lemma_keys_remove(c: Seq<ZStackElement>, i: int)
    requires
        0 <= i < c.len(),
    ensures
        keys_of(c.remove(i)) == keys_of(c).remove(i),
{
    assert(keys_of(c.remove(i)) =~= keys_of(c).remove(i));
}

/// Inserting a child inserts its key.
pub proof fn lemma_keys_insert(c: Seq<ZStackElement>, i: int, e: ZStackElement)
    requires
        0 <= i <= c.len(),
    ensures
        keys_of(c.insert(i, e)) == keys_of(c).insert(i, e.key()),
{
    assert(keys_of(c.insert(i, e)) =~= keys_of(c).insert(i, e.key()));
}

/// Sequences present at the same slots flatten to the same length.
pub proof fn lemma_flatten_len_same<A, B>(a: Seq<Option<A>>, b: Seq<Option<B>>)
    requires
        a.len() == b.len(),
        forall|k: int| 0 <= k < a.len() ==> (#[trigger] a[k] is Some <==> b[k] is Some),
    ensures
        flatten(a).len() == flatten(b).len(),
    decreases a.len(),
{
    if a.len() > 0 {
        lemma_flatten_len_same(a.drop_last(), b.drop_last());
        assert(a[a.len() - 1] is Some <==> b[b.len() - 1] is Some);
    }
}

/// A message result that hands `payload` back unhandled.
pub open spec fn is_stale(r: MessageResult, payload: Seq<char>) -> bool {
    match r {
        MessageResult::Stale(p) => p@ == payload,
        _ => false,
    }
}

/// Where a message goes in a sequence: the path's first identifier names the
/// slot, the rest of the path is handed to that slot's view; a path that names
/// no slot gets the payload back unhandled and changes nothing.
pub open spec fn seq_message_result(
    views: Seq<Option<AnyView>>,
    ids: Seq<Option<u64>>,
    path: Seq<u64>,
    payload: Seq<char>,
    app: Seq<String>,
    r: MessageResult,
    app_after: Seq<String>,
) -> bool {
    if path.len() > 0 && exists|k: int| 0 <= k < ids.len() && ids[k] == Some(path[0]) {
        forall|k: int| 0 <= k < ids.len() && ids[k] == Some(path[0])
            ==> leaf_message(views[k].unwrap(), path.subrange(1, path.len() as int), payload, app, r, app_after)
    } else {
        is_stale(r, payload) && app_after == app
    }
}

/// The text slot `k` showed before a rebuild: the text of its element among
/// `old_texts`, the texts of the old children in order.
pub open spec fn old_slot_text(ok: Seq<Option<(u64, Shape)>>, old_texts: Seq<Seq<char>>, k: int) -> Option<Seq<char>> {
    if 0 <= k < ok.len() && ok[k] is Some {
        Some(old_texts[flatten(ok.subrange(0, k)).len() as int])
    } else {
        None
    }
}

/// The text a slot's element shows after a rebuild from `p` to `n`: a reused
/// element keeps its text unless the view's text changed; a new element shows
/// the view's text.
pub open spec fn rebuilt_text(p: Option<AnyView>, n: Option<AnyView>, before: Option<Seq<char>>) -> Option<Seq<char>> {
    match n {
        None => None,
        Some(nv) => if reusable(p, n) && !nv.resets_text(&p.unwrap()) {
            before
        } else {
            Some(nv.text_view())
        },
    }
}

/// The texts of the first `len` slots after a rebuild.
pub open spec fn rebuilt_texts(
    prev: Seq<Option<AnyView>>,
    next: Seq<Option<AnyView>>,
    ok: Seq<Option<(u64, Shape)>>,
    old_texts: Seq<Seq<char>>,
    len: nat,
) -> Seq<Option<Seq<char>>> {
    Seq::new(len, |k: int| rebuilt_text(slot_at(prev, k), slot_at(next, k), old_slot_text(ok, old_texts, k)))
}

/// Where the elements of slot `i` and later start among the old children.
pub open spec fn old_pos(ok: Seq<Option<(u64, Shape)>>, i: int) -> int {
    if i < ok.len() {
        flatten(ok.subrange(0, i)).len() as int
    } else {
        flatten(ok).len() as int
    }
}

/// Removing a child removes its text.
pub proof fn lemma_texts_remove(c: Seq<ZStackElement>, i: int)
    requires
        0 <= i < c.len(),
    ensures
        texts_of(c.remove(i)) == texts_of(c).remove(i),
{
    assert(texts_of(c.remove(i)) =~= texts_of(c).remove(i));
}

/// Inserting a child inserts its text.
pub proof fn lemma_texts_insert(c: Seq<ZStackElement>, i: int, e: ZStackElement)
    requires
        0 <= i <= c.len(),
    ensures
        texts_of(c.insert(i, e)) == texts_of(c).insert(i, e.widget.text_view()),
{
    assert(texts_of(c.insert(i, e)) =~= texts_of(c).insert(i, e.widget.text_view()));
}

/// Moving past slot `i` moves past its old element, if it had one.
pub proof fn lemma_old_pos_step(ok: Seq<Option<(u64, Shape)>>, i: int)
    requires
        0 <= i,
    ensures
        old_pos(ok, i + 1) == old_pos(ok, i) + (if i < ok.len() && ok[i] is Some { 1int } else { 0int }),
        0 <= old_pos(ok, i) <= flatten(ok).len(),
{
    if i < ok.len() {
        assert(ok.subrange(0, i + 1) =~= ok.subrange(0, i).push(ok[i]));
        lemma_flatten_push(ok.subrange(0, i), ok[i]);
        if i + 1 == ok.len() {
            assert(ok.subrange(0, i + 1) =~= ok);
        }
        assert(ok =~= ok.subrange(0, i) + ok.subrange(i, ok.len() as int));
        lemma_flatten_append(ok.subrange(0, i), ok.subrange(i, ok.len() as int));
    }
}

/// The state a sequence keeps between rebuilds: the identifier of each slot.
pub struct SeqState {
    ids: Vec<Option<u64>>,
}

impl SeqState {
    pub closed spec fn ids_view(&self) -> Seq<Option<u64>> {
        self.ids@
    }

    pub fn ids(&self) -> (r: &Vec<Option<u64>>)
        ensures
            r@ == self.ids_view(),
    {
        &self.ids
    }
}

/// A fixed-length sequence of optional views; each present view owns one child
/// of the stack, in slot order.
pub struct ZStackSequence {
    pub views: Vec<Option<AnyView>>,
}

impl ZStackSequence {
    pub fn new(views: Vec<Option<AnyView>>) -> (r: ZStackSequence)
        ensures
            r.views@ == views@,
    {
        ZStackSequence { views }
    }

    /// Builds the element of every present view, in slot order, appending
    /// each to `elements`.
    pub fn seq_build(&self, ctx: &mut ViewCtx, elements: &mut Vec<ZStackElement>) -> (r: SeqState)
        requires
            old(ctx).next_id_view() + self.views@.len() <= u64::MAX,
        ensures
            ids_wf(self.views@, r.ids_view(), final(ctx).next_id_view()),
            forall|k: int| 0 <= k < r.ids_view().len() && (#[trigger] r.ids_view()[k]) is Some
                ==> old(ctx).next_id_view() <= r.ids_view()[k].unwrap(),
            old(ctx).next_id_view() <= final(ctx).next_id_view(),
            final(elements)@.subrange(0, old(elements)@.len() as int) == old(elements)@,
            keys_of(final(elements)@.subrange(old(elements)@.len() as int, final(elements)@.len() as int))
                == flatten(slot_keys(self.views@, r.ids_view())),
            texts_of(final(elements)@.subrange(old(elements)@.len() as int, final(elements)@.len() as int))
                == built_texts(self.views@),
            brushes_of(final(elements)@.subrange(old(elements)@.len() as int, final(elements)@.len() as int))
                == built_brushes(self.views@),
    {
        let ghost e0 = elements@;
        let ghost from = ctx.next_id_view();
        let ghost nv = self.views@;
        let ghost tv = nv.map_values(|o: Option<AnyView>| match o {
            Some(v) => Some(v.text_view()),
            None => None,
        });
        let ghost bv = nv.map_values(|o: Option<AnyView>| match o {
            Some(v) => Some((v.brush_view(), v.brush_view())),
            None => None,
        });
        let mut ids: Vec<Option<u64>> = Vec::new();
        let mut i: usize = 0;
        while i < self.views.len()
            invariant
                nv == self.views@,
                bv.len() == nv.len(),
                forall|k: int| 0 <= k < nv.len() ==> #[trigger] bv[k] == match nv[k] {
                    Some(v) => Some((v.brush_view(), v.brush_view())),
                    None => None,
                },
                brushes_of(elements@.subrange(e0.len() as int, elements@.len() as int)) == flatten(bv.subrange(0, i as int)),
                tv.len() == nv.len(),
                forall|k: int| 0 <= k < nv.len() ==> #[trigger] tv[k] == match nv[k] {
                    Some(v) => Some(v.text_view()),
                    None => None,
                },
                from + nv.len() <= u64::MAX,
                0 <= i <= nv.len(),
                ids@.len() == i,
                from <= ctx.next_id_view() <= from + i,
                forall|k: int| 0 <= k < i ==> ((#[trigger] ids@[k]) is Some <==> nv[k] is Some),
                forall|k: int| 0 <= k < i && (#[trigger] ids@[k]) is Some
                    ==> from <= ids@[k].unwrap() < ctx.next_id_view(),
                ids_distinct(ids@),
                elements@.len() >= e0.len(),
                elements@.subrange(0, e0.len() as int) == e0,
                keys_of(elements@.subrange(e0.len() as int, elements@.len() as int)) == flatten(slot_keys(nv, ids@)),
                texts_of(elements@.subrange(e0.len() as int, elements@.len() as int)) == flatten(tv.subrange(0, i as int)),
            decreases nv.len() - i,
        {
            let ghost ids0 = ids@;
            let ghost el0 = elements@;
            assert(tv.subrange(0, i + 1) =~= tv.subrange(0, i as int).push(tv[i as int]));
            proof { lemma_flatten_push(tv.subrange(0, i as int), tv[i as int]); }
            assert(bv.subrange(0, i + 1) =~= bv.subrange(0, i as int).push(bv[i as int]));
            proof { lemma_flatten_push(bv.subrange(0, i as int), bv[i as int]); }
            match &self.views[i] {
                Some(v) => {
                    let e = v.build(ctx);
                    ids.push(Some(e.id));
                    elements.push(e);
                    assert(slot_keys(nv, ids@) =~= slot_keys(nv, ids0).push(Some(e.key())));
                    proof { lemma_flatten_push(slot_keys(nv, ids0), Some(e.key())); }
                    assert(elements@.subrange(e0.len() as int, elements@.len() as int)
                        =~= el0.subrange(e0.len() as int, el0.len() as int).push(e));
                },
                None => {
                    ids.push(None);
                    assert(slot_keys(nv, ids@) =~= slot_keys(nv, ids0).push(None));
                    proof { lemma_flatten_push(slot_keys(nv, ids0), None); }
                },
            }
            assert(elements@.subrange(0, e0.len() as int) =~= e0);
            assert(keys_of(elements@.subrange(e0.len() as int, elements@.len() as int))
                =~= flatten(slot_keys(nv, ids@)));
            assert(texts_of(elements@.subrange(e0.len() as int, elements@.len() as int))
                =~= flatten(tv.subrange(0, i + 1)));
            assert(brushes_of(elements@.subrange(e0.len() as int, elements@.len() as int))
                =~= flatten(bv.subrange(0, i + 1)));
            i = i + 1;
        }
        assert(tv.subrange(0, i as int) =~= tv);
        assert(bv.subrange(0, i as int) =~= bv);
        SeqState { ids }
    }

    /// Brings the children that `prev` built up to date with this sequence,
    /// slot by slot: a view of the same shape updates its element in place, a
    /// view of another shape replaces it, a new view inserts one and a removed
    /// view deletes its own.
    #[verifier::rlimit(60)]
    pub(crate) fn seq_rebuild(&self, prev: &ZStackSequence, state: &mut SeqState, ctx: &mut ViewCtx, splice: &mut StackSplice<'_>)
        requires
            seq_wf(prev.views@, old(state).ids_view(), old(splice).element.children_view(), old(ctx).next_id_view()),
            old(splice).idx == 0,
            old(splice).scratch@.len() == 0,
            old(ctx).next_id_view() + self.views@.len() <= u64::MAX,
            prev.views@.len() + self.views@.len() < usize::MAX,
        ensures
            seq_wf(self.views@, final(state).ids_view(), final(splice).element.children_view(), final(ctx).next_id_view()),
            final(state).ids_view().len() == self.views@.len(),
            ids_carried(prev.views@, self.views@, old(state).ids_view(), final(state).ids_view(),
                old(ctx).next_id_view(), final(ctx).next_id_view()),
            old(ctx).next_id_view() <= final(ctx).next_id_view(),
            final(splice).idx == final(splice).element.children_view().len(),
            final(splice).scratch@.len() == 0,
            final(splice).ops@ == old(splice).ops@ + rebuild_ops(prev.views@, self.views@),
            texts_of(final(splice).element.children_view()) == flatten(rebuilt_texts(prev.views@, self.views@,
                slot_keys(prev.views@, old(state).ids_view()), texts_of(old(splice).element.children_view()), self.views@.len())),
            *final(final(splice).element) == *final(old(splice).element),
    {
        let ghost pv = prev.views@;
        let ghost t0 = texts_of(splice.element.children_view());
        let ghost nv = self.views@;
        let ghost oids = state.ids@;
        let ghost ok = slot_keys(pv, oids);
        let ghost from = ctx.next_id_view();
        let ghost o0 = splice.ops@;
        let plen = prev.views.len();
        let nlen = self.views.len();
        let n = if plen < nlen { nlen } else { plen };
        let absent: Option<AnyView> = None;
        let mut ids: Vec<Option<u64>> = Vec::new();
        let mut i: usize = 0;
        assert(slot_keys(nv, ids@) =~= Seq::<Option<(u64, Shape)>>::empty());
        assert(ok.subrange(0, ok.len() as int) =~= ok);
        assert(flatten(Seq::<Option<(u64, Shape)>>::empty()) + tail_keys(ok, 0) =~= flatten(ok));
        assert(rebuilt_texts(pv, nv, ok, t0, 0) =~= Seq::<Option<Seq<char>>>::empty());
        assert(flatten(Seq::<Option<Seq<char>>>::empty()) =~= Seq::<Seq<char>>::empty());
        assert(keys_of(splice.element.children_view()).len() == t0.len());
        proof {
            if ok.len() == 0 {
                assert(ok.subrange(0, 0) =~= ok);
            }
        }
        assert(Seq::<Seq<char>>::empty() + t0.subrange(old_pos(ok, 0), t0.len() as int) =~= t0);
        while i < n
            invariant
                pv == prev.views@,
                nv == self.views@,
                oids == state.ids@,
                plen == pv.len(),
                nlen == nv.len(),
                n == if plen < nlen { nlen } else { plen },
                absent is None,
                ok == slot_keys(pv, oids),
                ids_wf(pv, oids, from),
                from + nlen <= u64::MAX,
                plen + nlen < usize::MAX,
                0 <= i <= n,
                ids@.len() == if i < nlen { i as nat } else { nlen as nat },
                from <= ctx.next_id_view() <= from + ids@.len(),
                ids_carried(pv, nv, oids, ids@, from, ctx.next_id_view()),
                ids_distinct(ids@),
                forall|k: int| 0 <= k < ids@.len() && (#[trigger] ids@[k]) is Some ==> ids@[k].unwrap() < ctx.next_id_view(),
                keys_of(splice.element.children_view()) == flatten(slot_keys(nv, ids@)) + tail_keys(ok, i as int),
                splice.idx == flatten(slot_keys(nv, ids@)).len(),
                splice.idx == flatten(rebuilt_texts(pv, nv, ok, t0, ids@.len())).len(),
                t0.len() == flatten(ok).len(),
                texts_of(splice.element.children_view()) == flatten(rebuilt_texts(pv, nv, ok, t0, ids@.len()))
                    + t0.subrange(old_pos(ok, i as int), t0.len() as int),
                splice.scratch@.len() == 0,
                splice.ops@ == o0 + rebuild_ops_upto(pv, nv, i as nat),
                *final(splice.element) == *final(old(splice).element),
            decreases n - i,
        {
            let ghost ids0 = ids@;
            let ghost c0 = splice.element.children_view();
            let ghost a0 = flatten(slot_keys(nv, ids0));
            let ghost t1 = tail_keys(ok, i + 1);
            let ghost x0 = texts_of(c0);
            let ghost f0 = flatten(rebuilt_texts(pv, nv, ok, t0, ids0.len()));
            let ghost q0 = old_pos(ok, i as int);
            let ghost q1 = old_pos(ok, i + 1);
            proof {
                lemma_old_pos_step(ok, i as int);
                lemma_old_pos_step(ok, i + 1);
                if i < ok.len() && ok[i as int] is Some {
                    assert(t0.subrange(q0, t0.len() as int) =~= seq![t0[q0]] + t0.subrange(q1, t0.len() as int));
                } else {
                    assert(t0.subrange(q0, t0.len() as int) =~= t0.subrange(q1, t0.len() as int));
                }
                lemma_tail_step(ok, i as int);
                lemma_flatten_len(slot_keys(nv, ids0));
                if i < ok.len() {
                    lemma_flatten_len(ok.subrange(i as int, ok.len() as int));
                }
                assert(keys_of(c0).len() == c0.len());
            }
            let p: &Option<AnyView> = if i < plen { &prev.views[i] } else { &absent };
            let nx: &Option<AnyView> = if i < nlen { &self.views[i] } else { &absent };
            let oid: Option<u64> = if i < plen { state.ids[i] } else { None };
            assert(*p == slot_at(pv, i as int));
            assert(*nx == slot_at(nv, i as int));
            assert(oid == id_at(oids, i as int));
            let ghost okv = if i < ok.len() { ok[i as int] } else { None };
            let ghost ops0 = splice.ops@;
            assert(okv == slot_key(*p, oid));
            match (p, nx) {
                (Some(pw), Some(nw)) => {
                    if pw.shape_of() == nw.shape_of() {
                        assert(keys_of(c0)[a0.len() as int] == okv.unwrap());
                        nw.rebuild(pw, splice.mutate());
                        let ghost newt = texts_of(splice.element.children_view())[a0.len() as int];
                        assert(texts_of(splice.element.children_view()) =~= x0.update(a0.len() as int, newt));
                        assert(x0[a0.len() as int] == t0[q0]);
                        assert(x0.update(a0.len() as int, newt) =~= f0 + seq![newt] + t0.subrange(q1, t0.len() as int));
                        assert(rebuilt_text(*p, *nx, old_slot_text(ok, t0, i as int)) == Some(newt));
                        ids.push(oid);
                        assert(slot_keys(nv, ids@) =~= slot_keys(nv, ids0).push(okv));
                        proof { lemma_flatten_push(slot_keys(nv, ids0), okv); }
                        assert(keys_of(splice.element.children_view()) =~= keys_of(c0));
                    } else {
                        splice.delete(pw);
                        proof {
                            lemma_keys_remove(c0, a0.len() as int);
                            lemma_texts_remove(c0, a0.len() as int);
                        }
                        assert(keys_of(c0).remove(a0.len() as int) =~= a0 + t1);
                        assert(x0.remove(a0.len() as int) =~= f0 + t0.subrange(q1, t0.len() as int));
                        let e = nw.build(ctx);
                        let id = e.id;
                        let ghost ek = e.key();
                        let ghost c1 = splice.element.children_view();
                        splice.scratch.push(e);
                        splice.drain_scratch();
                        assert(splice.element.children_view() =~= c1.insert(a0.len() as int, e));
                        proof {
                            lemma_keys_insert(c1, a0.len() as int, e);
                            lemma_texts_insert(c1, a0.len() as int, e);
                        }
                        assert((f0 + t0.subrange(q1, t0.len() as int)).insert(a0.len() as int, nw.text_view())
                            =~= f0 + seq![nw.text_view()] + t0.subrange(q1, t0.len() as int));
                        ids.push(Some(id));
                        assert(slot_keys(nv, ids@) =~= slot_keys(nv, ids0).push(Some(ek)));
                        proof { lemma_flatten_push(slot_keys(nv, ids0), Some(ek)); }
                        assert(keys_of(splice.element.children_view()) =~= a0 + seq![ek] + t1);
                    }
                },
                (Some(pw), None) => {
                    splice.delete(pw);
                    proof {
                        lemma_keys_remove(c0, a0.len() as int);
                        lemma_texts_remove(c0, a0.len() as int);
                    }
                    assert(x0.remove(a0.len() as int) =~= f0 + t0.subrange(q1, t0.len() as int));
                    assert(keys_of(c0).remove(a0.len() as int) =~= a0 + t1);
                    if i < nlen {
                        ids.push(None);
                        assert(slot_keys(nv, ids@) =~= slot_keys(nv, ids0).push(None));
                        proof { lemma_flatten_push(slot_keys(nv, ids0), None); }
                    }
                    assert(flatten(slot_keys(nv, ids@)) =~= a0);
                },
                (None, Some(nw)) => {
                    let e = nw.build(ctx);
                    let id = e.id;
                    let ghost ek = e.key();
                    splice.scratch.push(e);
                    splice.drain_scratch();
                    assert(splice.element.children_view() =~= c0.insert(a0.len() as int, e));
                    proof {
                        lemma_keys_insert(c0, a0.len() as int, e);
                        lemma_texts_insert(c0, a0.len() as int, e);
                    }
                    assert(x0.insert(a0.len() as int, nw.text_view())
                        =~= f0 + seq![nw.text_view()] + t0.subrange(q1, t0.len() as int));
                    ids.push(Some(id));
                    assert(slot_keys(nv, ids@) =~= slot_keys(nv, ids0).push(Some(ek)));
                    proof { lemma_flatten_push(slot_keys(nv, ids0), Some(ek)); }
                    assert(keys_of(splice.element.children_view()) =~= a0 + seq![ek] + t1);
                },
                (None, None) => {
                    if i < nlen {
                        ids.push(None);
                        assert(slot_keys(nv, ids@) =~= slot_keys(nv, ids0).push(None));
                        proof { lemma_flatten_push(slot_keys(nv, ids0), None); }
                    }
                    assert(flatten(slot_keys(nv, ids@)) =~= a0);
                    assert(a0 + Seq::<(u64, Shape)>::empty() + t1 =~= a0 + t1);
                },
            }
            assert(splice.ops@ =~= ops0 + slot_ops(*p, *nx));
            proof {
                let rt = rebuilt_text(*p, *nx, old_slot_text(ok, t0, i as int));
                if i < nlen {
                    assert(rebuilt_texts(pv, nv, ok, t0, ids@.len()) =~= rebuilt_texts(pv, nv, ok, t0, ids0.len()).push(rt));
                    lemma_flatten_push(rebuilt_texts(pv, nv, ok, t0, ids0.len()), rt);
                } else {
                    assert(ids@.len() == ids0.len());
                }
            }
            assert(o0 + rebuild_ops_upto(pv, nv, i as nat) + slot_ops(*p, *nx)
                =~= o0 + rebuild_ops_upto(pv, nv, (i + 1) as nat));
            i = i + 1;
        }
        assert(tail_keys(ok, i as int) =~= Seq::<(u64, Shape)>::empty());
        assert(flatten(slot_keys(nv, ids@)) + Seq::<(u64, Shape)>::empty() =~= flatten(slot_keys(nv, ids@)));
        state.ids = ids;
    }

    /// Tears down the view of every present slot on its element, in slot
    /// order; no element is removed.
    pub(crate) fn seq_teardown(&self, state: &mut SeqState, ctx: &mut ViewCtx, splice: &mut StackSplice<'_>)
        requires
            seq_wf(self.views@, old(state).ids_view(), old(splice).element.children_view(), old(ctx).next_id_view()),
            old(splice).idx == 0,
            old(splice).scratch@.len() == 0,
        ensures
            final(splice).element.children_view().len() == old(splice).element.children_view().len(),
            keys_of(final(splice).element.children_view()) == keys_of(old(splice).element.children_view()),
            texts_of(final(splice).element.children_view()) == texts_of(old(splice).element.children_view()),
            forall|j: int| 0 <= j < final(splice).element.children_view().len()
                ==> !(#[trigger] final(splice).element.children_view()[j]).state.is_focused,
            final(splice).idx == final(splice).element.children_view().len(),
            final(splice).scratch@.len() == 0,
            final(splice).ops@ == old(splice).ops@ + teardown_ops(self.views@),
            final(state).ids_view() == old(state).ids_view(),
            final(ctx).next_id_view() == old(ctx).next_id_view(),
            *final(final(splice).element) == *final(old(splice).element),
    {
        let ghost nv = self.views@;
        let ghost ok = slot_keys(nv, state.ids@);
        let ghost c0 = splice.element.children_view();
        let ghost o0 = splice.ops@;
        let mut i: usize = 0;
        assert(ok.subrange(0, 0) =~= Seq::<Option<(u64, Shape)>>::empty());
        assert(o0 + teardown_steps(0) =~= o0);
        while i < self.views.len()
            invariant
                nv == self.views@,
                ok == slot_keys(nv, state.ids@),
                ids_wf(nv, state.ids@, ctx.next_id_view()),
                keys_of(c0) == flatten(ok),
                0 <= i <= nv.len(),
                splice.idx == flatten(ok.subrange(0, i as int)).len(),
                splice.element.children_view().len() == c0.len(),
                keys_of(splice.element.children_view()) == keys_of(c0),
                texts_of(splice.element.children_view()) == texts_of(c0),
                forall|j: int| 0 <= j < splice.idx ==> !(#[trigger] splice.element.children_view()[j]).state.is_focused,
                splice.scratch@.len() == 0,
                splice.ops@ == o0 + teardown_steps(splice.idx as nat),
                *final(splice.element) == *final(old(splice).element),
            decreases nv.len() - i,
        {
            let ghost c1 = splice.element.children_view();
            let ghost pre = ok.subrange(0, i as int);
            proof {
                assert(ok.subrange(0, i + 1) =~= pre.push(ok[i as int]));
                lemma_flatten_push(pre, ok[i as int]);
                assert(ok =~= ok.subrange(0, i + 1) + ok.subrange(i + 1, ok.len() as int));
                lemma_flatten_append(ok.subrange(0, i + 1), ok.subrange(i + 1, ok.len() as int));
                assert(keys_of(c1).len() == c1.len());
            }
            match &self.views[i] {
                Some(v) => {
                    splice.teardown(v);
                    assert(keys_of(splice.element.children_view()) =~= keys_of(c1));
                    assert(texts_of(splice.element.children_view()) =~= texts_of(c1));
                    assert(splice.ops@ =~= o0 + teardown_steps(splice.idx as nat));
                },
                None => {
                    assert(flatten(ok.subrange(0, i + 1)) =~= flatten(pre));
                },
            }
            i = i + 1;
        }
        proof {
            assert(ok.subrange(0, i as int) =~= ok);
            lemma_flatten_len_same(ok, nv);
            assert(keys_of(c0).len() == c0.len());
            assert(teardown_ops(nv) == teardown_steps(splice.idx as nat));
        }
    }

    /// Routes a message by its path: the first identifier selects the slot
    /// whose view receives the rest of the path.
    pub fn seq_message(&self, state: &SeqState, id_path: &[u64], payload: String, app_state: &mut Vec<String>) -> (r: MessageResult)
        requires
            state.ids_view().len() == self.views@.len(),
            forall|k: int| 0 <= k < self.views@.len() ==> ((#[trigger] state.ids_view()[k]) is Some <==> self.views@[k] is Some),
            ids_distinct(state.ids_view()),
        ensures
            seq_message_result(self.views@, state.ids_view(), id_path@, payload@, old(app_state)@, r, final(app_state)@),
    {
        let ghost ids = state.ids@;
        let ghost pl = payload@;
        if id_path.len() == 0 {
            return MessageResult::Stale(payload);
        }
        let (head, rest) = id_path.split_at(1);
        let first = head[0];
        assert(rest@ =~= id_path@.subrange(1, id_path@.len() as int));
        let mut i: usize = 0;
        while i < state.ids.len()
            invariant
                ids == state.ids@,
                pl == payload@,
                rest@ == id_path@.subrange(1, id_path@.len() as int),
                id_path@.len() > 0,
                first == id_path@[0],
                ids.len() == self.views@.len(),
                forall|k: int| 0 <= k < self.views@.len() ==> ((#[trigger] ids[k]) is Some <==> self.views@[k] is Some),
                ids_distinct(ids),
                forall|k: int| 0 <= k < i ==> ids[k] != Some(first),
                0 <= i <= ids.len(),
                *app_state == *old(app_state),
            decreases ids.len() - i,
        {
            if let Some(id) = state.ids[i] {
                if id == first {
                    match &self.views[i] {
                        Some(v) => {
                            let r = v.message(rest, payload, app_state);
                            assert forall|k: int| 0 <= k < ids.len() && ids[k] == Some(first) implies k == i by {
                                if k != i {
                                    assert(ids[k] is Some && ids[i as int] is Some);
                                }
                            }
                            assert(ids[i as int] == Some(id_path@[0]));
                            assert(self.views@[i as int].unwrap() == *v);
                            assert(exists|k: int| 0 <= k < ids.len() && ids[k] == Some(id_path@[0]));
                            return r;
                        },
                        None => {
                            assert(false);
                            return MessageResult::Stale(payload);
                        },
                    }
                }
            }
            i = i + 1;
        }
        MessageResult::Stale(payload)
    }
}

/// `n` in-place updates.
pub open spec fn mutates(n: nat) -> Seq<SpliceOp> {
    Seq::new(n, |_i: int| SpliceOp::Mutate)
}

/// Over a prefix where nothing changed, a rebuild only updates in place.
proof fn lemma_ops_same_prefix(prev: Seq<Option<AnyView>>, next: Seq<Option<AnyView>>, i: nat)
    requires
        i <= prev.len(),
        i <= next.len(),
        forall|j: int| 0 <= j < i ==> next[j] == prev[j],
    ensures
        rebuild_ops_upto(prev, next, i) == mutates(flatten(prev.subrange(0, i as int)).len()),
    decreases i,
{
    if i == 0 {
        assert(prev.subrange(0, 0) =~= Seq::<Option<AnyView>>::empty());
        assert(mutates(0) =~= Seq::<SpliceOp>::empty());
    } else {
        let j = (i - 1) as nat;
        lemma_ops_same_prefix(prev, next, j);
        assert(prev.subrange(0, i as int) =~= prev.subrange(0, j as int).push(prev[j as int]));
        lemma_flatten_push(prev.subrange(0, j as int), prev[j as int]);
        let m = flatten(prev.subrange(0, j as int)).len();
        match prev[j as int] {
            Some(_) => assert(mutates(m) + seq![SpliceOp::Mutate] =~= mutates(m + 1)),
            None => assert(mutates(m) + Seq::<SpliceOp>::empty() =~= mutates(m)),
        }
    }
}

/// The edits up to slot `i` when only slot `k` was emptied.
proof fn lemma_ops_after_removal(prev: Seq<Option<AnyView>>, next: Seq<Option<AnyView>>, k: int, i: nat)
    requires
        0 <= k < i <= prev.len(),
        next.len() == prev.len(),
        prev[k] is Some,
        next[k] is None,
        forall|j: int| 0 <= j < prev.len() && j != k ==> next[j] == prev[j],
    ensures
        rebuild_ops_upto(prev, next, i) == mutates(flatten(prev.subrange(0, k)).len())
            + seq![SpliceOp::Teardown, SpliceOp::Delete] + mutates(flatten(prev.subrange(k + 1, i as int)).len()),
    decreases i,
{
    let a = mutates(flatten(prev.subrange(0, k)).len());
    if i == k + 1 {
        lemma_ops_same_prefix(prev, next, k as nat);
        assert(prev.subrange(k + 1, i as int) =~= Seq::<Option<AnyView>>::empty());
        assert(a + seq![SpliceOp::Teardown, SpliceOp::Delete] + mutates(0) =~= a + seq![SpliceOp::Teardown, SpliceOp::Delete]);
    } else {
        let j = (i - 1) as nat;
        lemma_ops_after_removal(prev, next, k, j);
        assert(prev.subrange(k + 1, i as int) =~= prev.subrange(k + 1, j as int).push(prev[j as int]));
        lemma_flatten_push(prev.subrange(k + 1, j as int), prev[j as int]);
        let m = flatten(prev.subrange(k + 1, j as int)).len();
        match prev[j as int] {
            Some(_) => assert(a + seq![SpliceOp::Teardown, SpliceOp::Delete] + mutates(m) + seq![SpliceOp::Mutate]
                =~= a + seq![SpliceOp::Teardown, SpliceOp::Delete] + mutates(m + 1)),
            None => assert(a + seq![SpliceOp::Teardown, SpliceOp::Delete] + mutates(m) + Seq::<SpliceOp>::empty()
                =~= a + seq![SpliceOp::Teardown, SpliceOp::Delete] + mutates(m)),
        }
    }
}

/// The element owned by slot `i` sits after those of the slots before it.
pub proof fn lemma_flatten_at<T>(s: Seq<Option<T>>, i: int)
    requires
        0 <= i < s.len(),
        s[i] is Some,
    ensures
        flatten(s.subrange(0, i)).len() < flatten(s).len(),
        flatten(s)[flatten(s.subrange(0, i)).len() as int] == s[i].unwrap(),
{
    let pre = s.subrange(0, i);
    let post = s.subrange(i + 1, s.len() as int);
    assert(s =~= pre.push(s[i]) + post);
    lemma_flatten_append(pre.push(s[i]), post);
    lemma_flatten_push(pre, s[i]);
}

/// A slot whose view keeps its shape across a rebuild keeps its element: the
/// element at the slot's position among the children afterwards has the
/// identifier and shape of the one at its position before.
pub proof fn lemma_rebuild_keeps_reused(
    prev: Seq<Option<AnyView>>,
    next: Seq<Option<AnyView>>,
    old_ids: Seq<Option<u64>>,
    new_ids: Seq<Option<u64>>,
    from: u64,
    to: u64,
    i: int,
)
    requires
        ids_wf(prev, old_ids, from),
        new_ids.len() == next.len(),
        ids_carried(prev, next, old_ids, new_ids, from, to),
        0 <= i < next.len(),
        reusable(slot_at(prev, i), next[i]),
    ensures
        new_ids[i] == old_ids[i],
        ({
            let ok = slot_keys(prev, old_ids);
            let nk = slot_keys(next, new_ids);
            &&& flatten(nk)[flatten(nk.subrange(0, i)).len() as int]
                == flatten(ok)[flatten(ok.subrange(0, i)).len() as int]
            &&& flatten(ok.subrange(0, i)).len() < flatten(ok).len()
            &&& flatten(nk.subrange(0, i)).len() < flatten(nk).len()
        }),
{
    let ok = slot_keys(prev, old_ids);
    let nk = slot_keys(next, new_ids);
    assert(new_ids[i] == id_at(old_ids, i));
    lemma_flatten_at(ok, i);
    lemma_flatten_at(nk, i);
}

/// Rebuilding a built sequence against an identical copy of itself updates
/// every element in place, in slot order, inserts and deletes nothing, and
/// keeps every identifier.
pub proof fn lemma_rebuild_identical(
    views: Seq<Option<AnyView>>,
    old_ids: Seq<Option<u64>>,
    new_ids: Seq<Option<u64>>,
    from: u64,
    to: u64,
)
    requires
        ids_wf(views, old_ids, from),
        new_ids.len() == views.len(),
        ids_carried(views, views, old_ids, new_ids, from, to),
    ensures
        rebuild_ops(views, views) == mutates(flatten(views).len()),
        new_ids == old_ids,
{
    lemma_ops_same_prefix(views, views, views.len());
    assert(views.subrange(0, views.len() as int) =~= views);
    assert forall|k: int| 0 <= k < views.len() implies new_ids[k] == old_ids[k] by {
        if views[k] is Some {
            assert(reusable(slot_at(views, k), views[k]));
        } else {
            assert(new_ids[k] is None && old_ids[k] is None);
        }
    }
    assert(new_ids =~= old_ids);
}

/// Emptying slot `k` of a built sequence deletes exactly that slot's element:
/// the elements before it are updated in place, the ones after it are updated
/// in place one position lower, nothing is inserted, and the children are the
/// old ones with that one element removed.
pub proof fn lemma_rebuild_removal(
    prev: Seq<Option<AnyView>>,
    k: int,
    old_ids: Seq<Option<u64>>,
    new_ids: Seq<Option<u64>>,
    from: u64,
    to: u64,
)
    requires
        0 <= k < prev.len(),
        prev[k] is Some,
        ids_wf(prev, old_ids, from),
        new_ids.len() == prev.len(),
        ids_carried(prev, prev.update(k, None), old_ids, new_ids, from, to),
    ensures
        rebuild_ops(prev, prev.update(k, None)) == mutates(flatten(prev.subrange(0, k)).len())
            + seq![SpliceOp::Teardown, SpliceOp::Delete] + mutates(flatten(prev.subrange(k + 1, prev.len() as int)).len()),
        new_ids == old_ids.update(k, None),
        flatten(slot_keys(prev.update(k, None), new_ids)) == flatten(slot_keys(prev, old_ids)).remove(
            flatten(slot_keys(prev, old_ids).subrange(0, k)).len() as int,
        ),
{
    let next = prev.update(k, None);
    lemma_ops_after_removal(prev, next, k, prev.len());
    assert forall|j: int| 0 <= j < prev.len() implies new_ids[j] == old_ids.update(k, None)[j] by {
        if j != k && prev[j] is Some {
            assert(reusable(slot_at(prev, j), next[j]));
        }
    }
    assert(new_ids =~= old_ids.update(k, None));
    let ks = slot_keys(prev, old_ids);
    let nks = slot_keys(next, new_ids);
    assert(nks =~= ks.update(k, None));
    let pre = ks.subrange(0, k);
    let post = ks.subrange(k + 1, ks.len() as int);
    assert(ks =~= pre + seq![ks[k]] + post);
    assert(nks =~= pre + seq![None] + post);
    lemma_flatten_append(pre + seq![ks[k]], post);
    lemma_flatten_append(pre, seq![ks[k]]);
    lemma_flatten_append(pre + seq![None], post);
    lemma_flatten_append(pre, seq![None]);
    assert(seq![ks[k]] =~= Seq::<Option<(u64, Shape)>>::empty().push(ks[k]));
    assert(seq![None] =~= Seq::<Option<(u64, Shape)>>::empty().push(None));
    lemma_flatten_push(Seq::<Option<(u64, Shape)>>::empty(), ks[k]);
    lemma_flatten_push(Seq::<Option<(u64, Shape)>>::empty(), None);
    assert(flatten(Seq::<Option<(u64, Shape)>>::empty()) =~= Seq::<(u64, Shape)>::empty());
    let a = flatten(pre);
    let b = flatten(post);
    assert(ks[k] is Some);
    assert(flatten(ks) =~= a + seq![ks[k].unwrap()] + b);
    assert(flatten(nks) =~= a + b);
    assert((a + seq![ks[k].unwrap()] + b).remove(a.len() as int) =~= a + b);
}

} // verus!
