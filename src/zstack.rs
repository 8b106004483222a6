use vstd::prelude::*;
use crate::textbox::{TextBrush, Textbox, WidgetMut, WidgetState};

verus! {

/// The structural kind of a view or a widget: a view can only update a widget
/// in place when both have the same shape.
#[derive(Clone, Copy, Debug, PartialEq, Eq, Structural)]
pub enum Shape {
    Textbox,
    Spacer,
}

/// A retained leaf widget held by a stack.
pub enum AnyWidget {
    Textbox(Textbox),
    Spacer,
}

impl AnyWidget {
    pub open spec fn shape(&self) -> Shape {
        match self {
            AnyWidget::Textbox(_) => Shape::Textbox,
            AnyWidget::Spacer => Shape::Spacer,
        }
    }

    /// The widget's own brush and the brush its text is drawn with; both
    /// fully transparent for a widget that shows no text.
    pub open spec fn brushes(&self) -> (TextBrush, TextBrush) {
        match self {
            AnyWidget::Textbox(tb) => (tb.brush_view(), tb.editor_view().brush_view()),
            AnyWidget::Spacer => (TextBrush { rgba: 0 }, TextBrush { rgba: 0 }),
        }
    }

    /// The text shown by the widget, empty for a widget that shows none.
    pub open spec fn text_view(&self) -> Seq<char> {
        match self {
            AnyWidget::Textbox(tb) => tb.editor_view().text_view(),
            AnyWidget::Spacer => Seq::empty(),
        }
    }
}

/// One child of a stack: a widget with its identity and its context flags.
pub struct ZStackElement {
    pub id: u64,
    pub state: WidgetState,
    pub widget: AnyWidget,
}

impl ZStackElement {
    /// What a rebuild must keep of an element that is reused in place.
    pub open spec fn key(&self) -> (u64, Shape) {
        (self.id, self.widget.shape())
    }
}

/// The key of each child, in order.
pub open spec fn keys_of(children: Seq<ZStackElement>) -> Seq<(u64, Shape)> {
    children.map_values(|c: ZStackElement| c.key())
}

/// The retained stack widget: its children overlap, drawn in order.
pub struct ZStack {
    children: Vec<ZStackElement>,
}

impl ZStack {
    pub closed spec fn children_view(&self) -> Seq<ZStackElement> {
        self.children@
    }

    pub fn new() -> (r: ZStack)
        ensures
            r.children_view() == Seq::<ZStackElement>::empty(),
    {
        ZStack { children: Vec::new() }
    }

    pub fn with_child_pod(self, child: ZStackElement) -> (r: ZStack)
        ensures
            r.children_view() == self.children_view().push(child),
    {
        let mut this = self;
        this.children.push(child);
        this
    }

    pub fn len(&self) -> (r: usize)
        ensures
            r == self.children_view().len(),
    {
        self.children.len()
    }

    pub fn child(&self, idx: usize) -> (r: &ZStackElement)
        requires
            idx < self.children_view().len(),
        ensures
            *r == self.children_view()[idx as int],
    {
        &self.children[idx]
    }

    /// The identities of the children, in order.
    pub fn child_ids(&self) -> (r: Vec<u64>)
        ensures
            r@ == self.children_view().map_values(|c: ZStackElement| c.id),
    {
        let mut r: Vec<u64> = Vec::new();
        let mut i: usize = 0;
        while i < self.children.len()
            invariant
                i <= self.children@.len(),
                r@ == self.children@.subrange(0, i as int).map_values(|c: ZStackElement| c.id),
            decreases self.children@.len() - i,
        {
            r.push(self.children[i].id);
            i = i + 1;
            assert(r@ =~= self.children@.subrange(0, i as int).map_values(|c: ZStackElement| c.id));
        }
        assert(self.children@.subrange(0, i as int) =~= self.children@);
        r
    }

    /// A stack never holds more children than a `usize` counts.
    pub proof fn lemma_len_fits(&self)
        ensures
            self.children_view().len() <= usize::MAX,
    {
        assert(self.children@.len() == self.children.len());
    }

    pub fn insert_child_pod(&mut self, idx: usize, child: ZStackElement)
        requires
            idx <= old(self).children_view().len(),
        ensures
            final(self).children_view() == old(self).children_view().insert(idx as int, child),
    {
        self.children.insert(idx, child);
    }

    pub fn remove_child(&mut self, idx: usize)
        requires
            idx < old(self).children_view().len(),
        ensures
            final(self).children_view() == old(self).children_view().remove(idx as int),
    {
        self.children.remove(idx);
    }
}

/// Exclusive access to the child at `idx` of a stack.
pub struct ZStackElementMut<'w> {
    pub(crate) parent: &'w mut ZStack,
    pub(crate) idx: usize,
}

impl<'w> ZStackElementMut<'w> {
    /// Typed access to the child at the cursor when it is a text box; `None`
    /// when it is a widget of another kind.
    pub(crate) fn downcast_textbox(self) -> (r: Option<WidgetMut<'w, Textbox>>)
        requires
            self.idx < self.parent.children_view().len(),
        ensures
            ({
                let old_c = old(self.parent).children_view();
                let e = old_c[self.idx as int];
                match r {
                    Some(w) => {
                        &&& e.widget.shape() == Shape::Textbox
                        &&& *w.ctx == e.state
                        &&& AnyWidget::Textbox(*w.widget) == e.widget
                        &&& final(self.parent).children_view() == old_c.update(
                            self.idx as int,
                            ZStackElement { id: e.id, state: *final(w.ctx), widget: AnyWidget::Textbox(*final(w.widget)) },
                        )
                    },
                    None => {
                        &&& e.widget.shape() != Shape::Textbox
                        &&& final(self.parent).children_view() == old_c
                    },
                }
            }),
    {
        let child = &mut self.parent.children[self.idx];
        match &mut child.widget {
            AnyWidget::Textbox(tb) => Some(WidgetMut { ctx: &mut child.state, widget: tb }),
            AnyWidget::Spacer => None,
        }
    }
}

/// Hands out the identifiers of new view positions.
pub struct ViewCtx {
    next_id: u64,
}

impl ViewCtx {
    pub closed spec fn next_id_view(&self) -> u64 {
        self.next_id
    }

    pub fn new() -> (r: ViewCtx)
        ensures
            r.next_id_view() == 0,
    {
        ViewCtx { next_id: 0 }
    }

    pub fn new_id(&mut self) -> (r: u64)
        requires
            old(self).next_id_view() < u64::MAX,
        ensures
            r == old(self).next_id_view(),
            final(self).next_id_view() == old(self).next_id_view() + 1,
    {
        let r = self.next_id;
        self.next_id = self.next_id + 1;
        r
    }
}

/// What delivering a message produced.
pub enum MessageResult {
    /// The target handled the message and raised the action.
    Action(usize),
    /// The target handled the message with nothing to report.
    Nop,
    /// The path no longer leads to a view; the message is handed back.
    Stale(String),
}

/// A text box bound to one entry of the application state: edits made by
/// the user are written to `target`.
pub struct TextboxView {
    pub contents: String,
    pub brush: TextBrush,
    pub target: usize,
}

/// A leaf view of a stack.
pub enum AnyView {
    Textbox(TextboxView),
    Spacer,
}

impl AnyView {
    pub open spec fn shape(&self) -> Shape {
        match self {
            AnyView::Textbox(_) => Shape::Textbox,
            AnyView::Spacer => Shape::Spacer,
        }
    }

    /// The text a freshly built widget of this view shows.
    pub open spec fn text_view(&self) -> Seq<char> {
        match self {
            AnyView::Textbox(t) => t.contents@,
            AnyView::Spacer => Seq::empty(),
        }
    }

    /// The brush of the view's text; fully transparent for a view without text.
    pub open spec fn brush_view(&self) -> TextBrush {
        match self {
            AnyView::Textbox(t) => t.brush,
            AnyView::Spacer => TextBrush { rgba: 0 },
        }
    }

    /// Whether a rebuild from `prev` has to change the brush.
    pub open spec fn changes_brush(&self, prev: &AnyView) -> bool {
        match (prev, self) {
            (AnyView::Textbox(p), AnyView::Textbox(n)) => p.brush != n.brush,
            _ => false,
        }
    }

    /// Whether a rebuild from `prev` has to replace the shown text.
    pub open spec fn resets_text(&self, prev: &AnyView) -> bool {
        match (prev, self) {
            (AnyView::Textbox(p), AnyView::Textbox(n)) => p.contents@ != n.contents@,
            _ => false,
        }
    }

    pub fn shape_of(&self) -> (r: Shape)
        ensures
            r == self.shape(),
    {
        match self {
            AnyView::Textbox(_) => Shape::Textbox,
            AnyView::Spacer => Shape::Spacer,
        }
    }

    /// Builds the widget of this view under a fresh identifier.
    pub fn build(&self, ctx: &mut ViewCtx) -> (r: ZStackElement)
        requires
            old(ctx).next_id_view() < u64::MAX,
        ensures
            r.id == old(ctx).next_id_view(),
            final(ctx).next_id_view() == old(ctx).next_id_view() + 1,
            r.widget.shape() == self.shape(),
            r.widget.text_view() == self.text_view(),
            r.widget.brushes() == (self.brush_view(), self.brush_view()),
    {
        let id = ctx.new_id();
        match self {
            AnyView::Textbox(t) => {
                let tb = Textbox::new(t.contents.clone()).with_text_brush(t.brush);
                ZStackElement { id, state: WidgetState::new(), widget: AnyWidget::Textbox(tb) }
            },
            AnyView::Spacer => ZStackElement { id, state: WidgetState::new(), widget: AnyWidget::Spacer },
        }
    }

    /// Updates, in place, the widget built from `prev` so that it shows this view.
    pub(crate) fn rebuild(&self, prev: &AnyView, el: ZStackElementMut<'_>)
        requires
            self.shape() == prev.shape(),
            el.idx < el.parent.children_view().len(),
            el.parent.children_view()[el.idx as int].widget.shape() == self.shape(),
        ensures
            ({
                let old_c = old(el.parent).children_view();
                let new_c = final(el.parent).children_view();
                &&& new_c.len() == old_c.len()
                &&& forall|j: int| 0 <= j < old_c.len() && j != el.idx ==> new_c[j] == old_c[j]
                &&& new_c[el.idx as int].key() == old_c[el.idx as int].key()
                &&& self.resets_text(prev) ==> new_c[el.idx as int].widget.text_view() == self.text_view()
                &&& !self.resets_text(prev) ==> new_c[el.idx as int].widget.text_view()
                    == old_c[el.idx as int].widget.text_view()
                &&& new_c[el.idx as int].state.is_disabled == old_c[el.idx as int].state.is_disabled
                &&& self.changes_brush(prev) ==> {
                    let (w, t) = new_c[el.idx as int].widget.brushes();
                    &&& w == self.brush_view()
                    &&& !new_c[el.idx as int].state.is_disabled ==> t == self.brush_view()
                    &&& new_c[el.idx as int].state.is_disabled ==> t == old_c[el.idx as int].widget.brushes().1
                }
                &&& !self.changes_brush(prev) ==> new_c[el.idx as int].widget.brushes()
                    == old_c[el.idx as int].widget.brushes()
            }),
    {
        match (prev, self) {
            (AnyView::Textbox(p), AnyView::Textbox(n)) => {
                if let Some(w) = el.downcast_textbox() {
                    if p.contents != n.contents {
                        Textbox::reset_text(WidgetMut { ctx: &mut *w.ctx, widget: &mut *w.widget }, n.contents.clone());
                    }
                    if p.brush != n.brush {
                        Textbox::set_text_brush(w, n.brush);
                    }
                }
            },
            _ => {},
        }
    }
    /// Releases what the view attached to its widget before the widget goes:
    /// the widget gives up focus.
    pub(crate) fn teardown(&self, el: ZStackElementMut<'_>)
        requires
            el.idx < el.parent.children_view().len(),
        ensures
            ({
                let old_c = old(el.parent).children_view();
                let new_c = final(el.parent).children_view();
                &&& new_c.len() == old_c.len()
                &&& forall|j: int| 0 <= j < old_c.len() && j != el.idx ==> new_c[j] == old_c[j]
                &&& new_c[el.idx as int].key() == old_c[el.idx as int].key()
                &&& new_c[el.idx as int].widget.text_view() == old_c[el.idx as int].widget.text_view()
                &&& !new_c[el.idx as int].state.is_focused
            }),
    {
        let idx = el.idx;
        let child = &mut el.parent.children[idx];
        child.state.is_focused = false;
    }

    /// Delivers `payload` to this view when the path ends here.
    pub fn message(&self, id_path: &[u64], payload: String, app_state: &mut Vec<String>) -> (r: MessageResult)
        ensures
            leaf_message(*self, id_path@, payload@, old(app_state)@, r, final(app_state)@),
    {
        if id_path.len() > 0 {
            return MessageResult::Stale(payload);
        }
        match self {
            AnyView::Textbox(t) => {
                if t.target < app_state.len() {
                    app_state.set(t.target, payload);
                    MessageResult::Action(t.target)
                } else {
                    MessageResult::Nop
                }
            },
            AnyView::Spacer => MessageResult::Stale(payload),
        }
    }
}

/// The outcome of a message at a leaf view: only a text box at the end of the
/// path takes it, writing the payload to its entry of the application state.
pub open spec fn leaf_message(
    v: AnyView,
    path: Seq<u64>,
    payload: Seq<char>,
    app: Seq<String>,
    r: MessageResult,
    app_after: Seq<String>,
) -> bool {
    match v {
        AnyView::Textbox(t) if path.len() == 0 => if t.target < app.len() {
            &&& r == MessageResult::Action(t.target)
            &&& app_after.len() == app.len()
            &&& app_after[t.target as int]@ == payload
            &&& forall|j: int| 0 <= j < app.len() && j != t.target ==> app_after[j] == app[j]
        } else {
            r == MessageResult::Nop && app_after == app
        },
        _ => (match r {
            MessageResult::Stale(p) => p@ == payload,
            _ => false,
        }) && app_after == app,
    }
}

/// One edit a splice applies to the children of a stack.
#[derive(Clone, Copy, Debug, PartialEq, Eq, Structural)]
pub enum SpliceOp {
    Insert,
    Mutate,
    Skip(usize),
    Teardown,
    Delete,
}

/// An edit cursor over the children of a stack. Edits are issued left to
/// right; elements built in a batch wait in `scratch` until they are drained.
pub struct StackSplice<'w> {
    pub(crate) idx: usize,
    pub(crate) element: &'w mut ZStack,
    pub(crate) scratch: Vec<ZStackElement>,
    pub(crate) ops: Ghost<Seq<SpliceOp>>,
}

impl<'w> StackSplice<'w> {
    pub(crate) fn new(element: &'w mut ZStack) -> (r: StackSplice<'w>)
        ensures
            r.idx == 0,
            r.scratch@ == Seq::<ZStackElement>::empty(),
            r.ops@ == Seq::<SpliceOp>::empty(),
            *r.element == *old(element),
            *final(r.element) == *final(element),
    {
        StackSplice { idx: 0, element, scratch: Vec::new(), ops: Ghost(Seq::empty()) }
    }

    /// Inserts `child` at the cursor and moves past it.
    pub(crate) fn insert(&mut self, child: ZStackElement)
        requires
            old(self).idx <= old(self).element.children_view().len() < usize::MAX,
        ensures
            final(self).idx == old(self).idx + 1,
            final(self).element.children_view() == old(self).element.children_view().insert(old(self).idx as int, child),
            final(self).scratch@ == old(self).scratch@,
            final(self).ops@ == old(self).ops@.push(SpliceOp::Insert),
            *final(final(self).element) == *final(old(self).element),
    {
        self.element.insert_child_pod(self.idx, child);
        self.idx = self.idx + 1;
        self.ops = Ghost(self.ops@.push(SpliceOp::Insert));
    }

    /// Inserts the staged elements at the cursor, first staged first, moving past each.
    pub(crate) fn drain_scratch(&mut self)
        requires
            old(self).idx <= old(self).element.children_view().len(),
            old(self).element.children_view().len() + old(self).scratch@.len() < usize::MAX,
        ensures
            final(self).idx == old(self).idx + old(self).scratch@.len(),
            final(self).element.children_view() == old(self).element.children_view().subrange(0, old(self).idx as int)
                + old(self).scratch@ + old(self).element.children_view().subrange(old(self).idx as int, old(self).element.children_view().len() as int),
            final(self).scratch@ == Seq::<ZStackElement>::empty(),
            final(self).ops@ == old(self).ops@ + Seq::new(old(self).scratch@.len(), |_i: int| SpliceOp::Insert),
            *final(final(self).element) == *final(old(self).element),
    {
        let ghost c0 = self.element.children_view();
        let ghost i0 = self.idx as int;
        let ghost s0 = self.scratch@;
        let ghost o0 = self.ops@;
        let mut staged: Vec<ZStackElement> = Vec::new();
        std::mem::swap(&mut staged, &mut self.scratch);
        let mut k: usize = 0;
        let n = staged.len();
        while k < n
            invariant
                n == s0.len(),
                0 <= k <= n,
                staged@ == s0.subrange(k as int, n as int),
                self.idx == i0 + k,
                self.element.children_view() == c0.subrange(0, i0) + s0.subrange(0, k as int) + c0.subrange(i0, c0.len() as int),
                self.scratch@ == Seq::<ZStackElement>::empty(),
                self.ops@ == o0 + Seq::new(k as nat, |_i: int| SpliceOp::Insert),
                *final(self.element) == *final(old(self).element),
                0 <= i0 <= c0.len(),
                c0.len() + n < usize::MAX,
            decreases n - k,
        {
            let child = staged.remove(0);
            self.insert(child);
            k = k + 1;
            assert(s0.subrange(0, k as int) =~= s0.subrange(0, k - 1).push(s0[k - 1]));
            assert(self.ops@ =~= o0 + Seq::new(k as nat, |_i: int| SpliceOp::Insert));
        }
    }

    /// Grants access to the child at the cursor and moves past it.
    pub(crate) fn mutate(&mut self) -> (r: ZStackElementMut<'_>)
        requires
            old(self).idx < old(self).element.children_view().len(),
        ensures
            r.idx == old(self).idx,
            *r.parent == *old(self).element,
            final(self).idx == old(self).idx + 1,
            *final(self).element == *final(r.parent),
            final(self).scratch@ == old(self).scratch@,
            final(self).ops@ == old(self).ops@.push(SpliceOp::Mutate),
            *final(final(self).element) == *final(old(self).element),
    {
        proof {
            self.element.lemma_len_fits();
        }
        let i = self.idx;
        self.idx = self.idx + 1;
        self.ops = Ghost(self.ops@.push(SpliceOp::Mutate));
        ZStackElementMut { parent: &mut *self.element, idx: i }
    }

    /// Moves the cursor past `n` children without touching them.
    pub(crate) fn skip(&mut self, n: usize)
        requires
            old(self).idx + n <= old(self).element.children_view().len(),
        ensures
            final(self).idx == old(self).idx + n,
            *final(self).element == *old(self).element,
            final(self).scratch@ == old(self).scratch@,
            final(self).ops@ == old(self).ops@.push(SpliceOp::Skip(n)),
            *final(final(self).element) == *final(old(self).element),
    {
        proof {
            self.element.lemma_len_fits();
        }
        self.idx = self.idx + n;
        self.ops = Ghost(self.ops@.push(SpliceOp::Skip(n)));
    }

    /// Grants `view`'s teardown access to the child at the cursor and moves
    /// past it; the child stays.
    pub(crate) fn teardown(&mut self, view: &AnyView)
        requires
            old(self).idx < old(self).element.children_view().len(),
        ensures
            final(self).idx == old(self).idx + 1,
            ({
                let old_c = old(self).element.children_view();
                let new_c = final(self).element.children_view();
                let i = old(self).idx as int;
                &&& new_c.len() == old_c.len()
                &&& forall|j: int| 0 <= j < old_c.len() && j != i ==> new_c[j] == old_c[j]
                &&& new_c[i].key() == old_c[i].key()
                &&& new_c[i].widget.text_view() == old_c[i].widget.text_view()
                &&& !new_c[i].state.is_focused
            }),
            final(self).scratch@ == old(self).scratch@,
            final(self).ops@ == old(self).ops@.push(SpliceOp::Mutate).push(SpliceOp::Teardown),
            *final(final(self).element) == *final(old(self).element),
    {
        view.teardown(self.mutate());
        self.ops = Ghost(self.ops@.push(SpliceOp::Teardown));
    }

    /// Tears `view` down on the child at the cursor, then removes that child;
    /// the cursor stays where it is.
    pub(crate) fn delete(&mut self, view: &AnyView)
        requires
            old(self).idx < old(self).element.children_view().len(),
        ensures
            final(self).idx == old(self).idx,
            final(self).element.children_view() == old(self).element.children_view().remove(old(self).idx as int),
            final(self).scratch@ == old(self).scratch@,
            final(self).ops@ == old(self).ops@.push(SpliceOp::Teardown).push(SpliceOp::Delete),
            *final(final(self).element) == *final(old(self).element),
    {
        view.teardown(ZStackElementMut { parent: &mut *self.element, idx: self.idx });
        self.ops = Ghost(self.ops@.push(SpliceOp::Teardown));
        self.element.remove_child(self.idx);
        self.ops = Ghost(self.ops@.push(SpliceOp::Delete));
    }
}

} // verus!
