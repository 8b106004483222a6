//! Reconciliation of a layered stack of views onto a retained widget tree,
//! together with the retained state of the text box leaf widget.
mod sequence;
mod stack;
mod textbox;
mod zstack;

pub use sequence::{SeqState, ZStackSequence};
pub use stack::{zstack, Stack};
pub use textbox::{
    Alignment, FontFamily, FontStack, GenericFamily, LineBreaking, TextBrush, TextEdit, TextWithSelection, Textbox,
    Update, WidgetMut, WidgetState, DISABLED_TEXT_COLOR, TEXT_COLOR,
};
pub use zstack::{
    AnyView, AnyWidget, MessageResult, Shape, SpliceOp, StackSplice, TextboxView, ViewCtx, ZStack,
    ZStackElement, ZStackElementMut,
};
