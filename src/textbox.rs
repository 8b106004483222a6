use vstd::prelude::*;
use vstd::std_specs::iter::IteratorSpec;

verus! {

/// How many characters of the text a debug description shows.
pub const DEBUG_TEXT_LEN: usize = 100;

/// Relies on `String::push`: appends the character to the end of the string.
#[verifier::external_body]
fn push_char(s: &mut String, c: char)
    ensures
        final(s)@ == old(s)@.push(c),
{
    s.push(c)
}

/// Default colour of text, as packed `0xRRGGBBAA`.
pub const TEXT_COLOR: u32 = 0xf0f0eaff;

/// Colour of text in a disabled widget, as packed `0xRRGGBBAA`.
pub const DISABLED_TEXT_COLOR: u32 = 0xa0a09aff;

/// Horizontal alignment of lines of text.
#[derive(Clone, Copy, Debug, PartialEq, Eq, Structural)]
pub enum Alignment {
    Start,
    Middle,
    End,
    Justified,
}

/// A generic font family, resolved to a concrete font by the system.
#[derive(Clone, Copy, Debug, PartialEq, Eq, Structural)]
pub enum GenericFamily {
    Serif,
    SansSerif,
    Monospace,
    Cursive,
    Fantasy,
    SystemUi,
    Emoji,
    Math,
}

/// A font family, by name or generic.
pub enum FontFamily {
    Named(String),
    Generic(GenericFamily),
}

/// The fonts to draw text with, first choice first.
pub enum FontStack {
    Single(FontFamily),
    List(Vec<FontFamily>),
}

/// A change of widget status delivered to a widget.
#[derive(Clone, Copy, Debug, PartialEq, Eq, Structural)]
pub enum Update {
    FocusChanged(bool),
    DisabledChanged(bool),
    HoveredChanged(bool),
}

/// How text that does not fit on one line is handled.
#[derive(Clone, Copy, Debug, PartialEq, Eq, Structural)]
pub enum LineBreaking {
    Clip,
    WordWrap,
    Overflow,
}

/// The brush text is drawn with: a solid colour packed as `0xRRGGBBAA`.
#[derive(Clone, Copy, Debug, PartialEq, Eq, Structural)]
pub struct TextBrush {
    pub rgba: u32,
}

/// The layout flags and focus state a widget's context exposes to its mutators.
#[derive(Clone, Copy, Debug, PartialEq, Eq, Structural)]
pub struct WidgetState {
    pub is_focused: bool,
    pub is_disabled: bool,
    pub needs_layout: bool,
    pub needs_render: bool,
}

impl WidgetState {
    /// A fresh, enabled, unfocused widget with layout and paint pending.
    pub fn new() -> (r: WidgetState)
        ensures
            !r.is_focused,
            !r.is_disabled,
            r.needs_layout,
            r.needs_render,
    {
        WidgetState { is_focused: false, is_disabled: false, needs_layout: true, needs_render: true }
    }
}

/// Exclusive access to one widget and its context for the duration of one call.
pub struct WidgetMut<'w, W> {
    pub ctx: &'w mut WidgetState,
    pub widget: &'w mut W,
}

/// Editable text with its brush, a pending input-method composition and a
/// flag telling whether its layout has to be rebuilt.
pub struct TextWithSelection {
    text: String,
    brush: TextBrush,
    alignment: Alignment,
    font: FontStack,
    has_focus: bool,
    has_preedit: bool,
    needs_rebuild: bool,
}

impl TextWithSelection {
    pub closed spec fn text_view(&self) -> Seq<char> {
        self.text@
    }

    pub closed spec fn brush_view(&self) -> TextBrush {
        self.brush
    }

    pub closed spec fn alignment_view(&self) -> Alignment {
        self.alignment
    }

    pub closed spec fn font_view(&self) -> FontStack {
        self.font
    }

    pub closed spec fn focus_view(&self) -> bool {
        self.has_focus
    }

    pub closed spec fn preedit_view(&self) -> bool {
        self.has_preedit
    }

    pub closed spec fn rebuild_view(&self) -> bool {
        self.needs_rebuild
    }

    pub fn new(text: String, brush: TextBrush) -> (r: TextWithSelection)
        ensures
            r.text_view() == text@,
            r.brush_view() == brush,
            r.alignment_view() == Alignment::Start,
            r.font_view() == FontStack::Single(FontFamily::Generic(GenericFamily::SystemUi)),
            !r.focus_view(),
            !r.preedit_view(),
            r.rebuild_view(),
    {
        TextWithSelection {
            text,
            brush,
            alignment: Alignment::Start,
            font: FontStack::Single(FontFamily::Generic(GenericFamily::SystemUi)),
            has_focus: false,
            has_preedit: false,
            needs_rebuild: true,
        }
    }

    pub fn text(&self) -> (r: &str)
        ensures
            r@ == self.text_view(),
    {
        self.text.as_str()
    }

    pub fn brush(&self) -> (r: TextBrush)
        ensures
            r == self.brush_view(),
    {
        self.brush
    }

    pub fn needs_rebuild(&self) -> (r: bool)
        ensures
            r == self.rebuild_view(),
    {
        self.needs_rebuild
    }

    pub fn has_preedit(&self) -> (r: bool)
        ensures
            r == self.preedit_view(),
    {
        self.has_preedit
    }

    pub fn alignment(&self) -> (r: Alignment)
        ensures
            r == self.alignment_view(),
    {
        self.alignment
    }

    pub fn has_focus(&self) -> (r: bool)
        ensures
            r == self.focus_view(),
    {
        self.has_focus
    }

    /// Changes the alignment; the layout must be rebuilt.
    pub fn set_text_alignment(&mut self, alignment: Alignment)
        ensures
            final(self).text_view() == old(self).text_view(),
            final(self).brush_view() == old(self).brush_view(),
            final(self).alignment_view() == alignment,
            final(self).font_view() == old(self).font_view(),
            final(self).focus_view() == old(self).focus_view(),
            final(self).preedit_view() == old(self).preedit_view(),
            final(self).rebuild_view(),
    {
        self.alignment = alignment;
        self.needs_rebuild = true;
    }

    pub fn font(&self) -> (r: &FontStack)
        ensures
            *r == self.font_view(),
    {
        &self.font
    }

    /// Changes the fonts; the layout must be rebuilt.
    pub fn set_font(&mut self, font: FontStack)
        ensures
            final(self).text_view() == old(self).text_view(),
            final(self).brush_view() == old(self).brush_view(),
            final(self).alignment_view() == old(self).alignment_view(),
            final(self).font_view() == font,
            final(self).focus_view() == old(self).focus_view(),
            final(self).preedit_view() == old(self).preedit_view(),
            final(self).rebuild_view(),
    {
        self.font = font;
        self.needs_rebuild = true;
    }

    /// Records that the widget gained focus; the selection is drawn anew.
    pub fn focus_gained(&mut self)
        ensures
            final(self).text_view() == old(self).text_view(),
            final(self).brush_view() == old(self).brush_view(),
            final(self).alignment_view() == old(self).alignment_view(),
            final(self).font_view() == old(self).font_view(),
            final(self).focus_view(),
            final(self).preedit_view() == old(self).preedit_view(),
            final(self).rebuild_view(),
    {
        self.has_focus = true;
        self.needs_rebuild = true;
    }

    /// Records that the widget lost focus; a pending composition is dropped.
    pub fn focus_lost(&mut self)
        ensures
            final(self).text_view() == old(self).text_view(),
            final(self).brush_view() == old(self).brush_view(),
            final(self).alignment_view() == old(self).alignment_view(),
            final(self).font_view() == old(self).font_view(),
            !final(self).focus_view(),
            !final(self).preedit_view(),
            final(self).rebuild_view(),
    {
        self.has_focus = false;
        self.has_preedit = false;
        self.needs_rebuild = true;
    }

    /// Replaces the whole text; the layout must be rebuilt.
    pub fn set_text(&mut self, text: String)
        ensures
            final(self).text_view() == text@,
            final(self).brush_view() == old(self).brush_view(),
            final(self).preedit_view() == old(self).preedit_view(),
            final(self).rebuild_view(),
            final(self).alignment_view() == old(self).alignment_view(),
            final(self).font_view() == old(self).font_view(),
            final(self).focus_view() == old(self).focus_view(),
    {
        self.text = text;
        self.needs_rebuild = true;
    }

    /// Changes the brush; the layout must be rebuilt only if the brush changed.
    pub fn set_brush(&mut self, brush: TextBrush)
        ensures
            final(self).text_view() == old(self).text_view(),
            final(self).brush_view() == brush,
            final(self).preedit_view() == old(self).preedit_view(),
            final(self).rebuild_view() == (old(self).rebuild_view() || old(self).brush_view() != brush),
            final(self).alignment_view() == old(self).alignment_view(),
            final(self).font_view() == old(self).font_view(),
            final(self).focus_view() == old(self).focus_view(),
    {
        if self.brush != brush {
            self.brush = brush;
            self.needs_rebuild = true;
        }
    }

    /// Discards any pending input-method composition.
    pub fn reset_preedit(&mut self)
        ensures
            final(self).text_view() == old(self).text_view(),
            final(self).brush_view() == old(self).brush_view(),
            !final(self).preedit_view(),
            final(self).rebuild_view() == (old(self).rebuild_view() || old(self).preedit_view()),
            final(self).alignment_view() == old(self).alignment_view(),
            final(self).font_view() == old(self).font_view(),
            final(self).focus_view() == old(self).focus_view(),
    {
        if self.has_preedit {
            self.has_preedit = false;
            self.needs_rebuild = true;
        }
    }

}

/// One change to the text properties of a text box.
pub enum TextEdit {
    SetText(String),
    SetBrush(TextBrush),
    SetAlignment(Alignment),
    SetFont(FontStack),
}

/// What a text property edit leaves behind, over the text, the brush and the rebuild flag.
pub open spec fn edit_result(e: TextEdit, text: Seq<char>, brush: TextBrush, rebuild: bool) -> (Seq<char>, TextBrush, bool) {
    match e {
        TextEdit::SetText(t) => (t@, brush, true),
        TextEdit::SetBrush(b) => (text, b, rebuild || brush != b),
        TextEdit::SetAlignment(_) => (text, brush, true),
        TextEdit::SetFont(_) => (text, brush, true),
    }
}

/// The fonts after an edit.
pub open spec fn edit_font(e: TextEdit, font: FontStack) -> FontStack {
    match e {
        TextEdit::SetFont(f) => f,
        _ => font,
    }
}

/// The alignment after an edit.
pub open spec fn edit_alignment(e: TextEdit, alignment: Alignment) -> Alignment {
    match e {
        TextEdit::SetAlignment(a) => a,
        _ => alignment,
    }
}

/// A widget showing text that the user can edit.
pub struct Textbox {
    editor: TextWithSelection,
    line_break_mode: LineBreaking,
    show_disabled: bool,
    brush: TextBrush,
}

impl Textbox {
    pub closed spec fn editor_view(&self) -> &TextWithSelection {
        &self.editor
    }

    pub closed spec fn line_break_view(&self) -> LineBreaking {
        self.line_break_mode
    }

    pub closed spec fn brush_view(&self) -> TextBrush {
        self.brush
    }

    pub closed spec fn show_disabled_view(&self) -> bool {
        self.show_disabled
    }

    /// Everything but the editor is as in `other`.
    pub open spec fn same_settings(&self, other: &Textbox) -> bool {
        &&& self.line_break_view() == other.line_break_view()
        &&& self.show_disabled_view() == other.show_disabled_view()
        &&& self.brush_view() == other.brush_view()
    }

    pub fn new(initial_text: String) -> (r: Textbox)
        ensures
            r.editor_view().text_view() == initial_text@,
            r.editor_view().brush_view() == (TextBrush { rgba: TEXT_COLOR }),
            !r.editor_view().preedit_view(),
            r.editor_view().rebuild_view(),
            r.line_break_view() == LineBreaking::WordWrap,
            r.show_disabled_view(),
            r.brush_view() == (TextBrush { rgba: TEXT_COLOR }),
    {
        let brush = TextBrush { rgba: TEXT_COLOR };
        Textbox {
            editor: TextWithSelection::new(initial_text, brush),
            line_break_mode: LineBreaking::WordWrap,
            show_disabled: true,
            brush,
        }
    }

    pub fn text(&self) -> (r: &str)
        ensures
            r@ == self.editor_view().text_view(),
    {
        self.editor.text()
    }

    pub fn editor(&self) -> (r: &TextWithSelection)
        ensures
            r == self.editor_view(),
    {
        &self.editor
    }

    pub fn line_break_mode(&self) -> (r: LineBreaking)
        ensures
            r == self.line_break_view(),
    {
        self.line_break_mode
    }

    pub fn brush(&self) -> (r: TextBrush)
        ensures
            r == self.brush_view(),
    {
        self.brush
    }

    pub fn with_text_brush(self, brush: TextBrush) -> (r: Textbox)
        ensures
            r.brush_view() == brush,
            r.editor_view().brush_view() == brush,
            r.editor_view().text_view() == self.editor_view().text_view(),
            r.editor_view().preedit_view() == self.editor_view().preedit_view(),
            r.editor_view().rebuild_view() == (self.editor_view().rebuild_view()
                || self.editor_view().brush_view() != brush),
            r.line_break_view() == self.line_break_view(),
            r.show_disabled_view() == self.show_disabled_view(),
    {
        let mut this = self;
        this.brush = brush;
        this.editor.set_brush(brush);
        this
    }

    pub fn with_line_break_mode(self, line_break_mode: LineBreaking) -> (r: Textbox)
        ensures
            r.line_break_view() == line_break_mode,
            r.editor_view() == self.editor_view(),
            r.brush_view() == self.brush_view(),
            r.show_disabled_view() == self.show_disabled_view(),
    {
        let mut this = self;
        this.line_break_mode = line_break_mode;
        this
    }

    pub fn with_text_alignment(self, alignment: Alignment) -> (r: Textbox)
        ensures
            r.editor_view().alignment_view() == alignment,
            r.editor_view().text_view() == self.editor_view().text_view(),
            r.editor_view().brush_view() == self.editor_view().brush_view(),
            r.editor_view().focus_view() == self.editor_view().focus_view(),
            r.editor_view().preedit_view() == self.editor_view().preedit_view(),
            r.editor_view().rebuild_view(),
            r.same_settings(&self),
    {
        let mut this = self;
        this.editor.set_text_alignment(alignment);
        this
    }

    /// Sets the alignment of the lines; a layout is requested.
    pub fn set_alignment(this: WidgetMut<'_, Self>, alignment: Alignment)
        ensures
            final(this.widget).editor_view().alignment_view() == alignment,
            final(this.widget).editor_view().text_view() == old(this.widget).editor_view().text_view(),
            final(this.widget).editor_view().brush_view() == old(this.widget).editor_view().brush_view(),
            final(this.widget).editor_view().rebuild_view(),
            final(this.widget).same_settings(&*old(this.widget)),
            final(this.ctx).needs_layout,
            final(this.ctx).needs_render == old(this.ctx).needs_render,
    {
        Self::set_text_properties(this, TextEdit::SetAlignment(alignment));
    }

    pub fn with_font(self, font: FontStack) -> (r: Textbox)
        ensures
            r.editor_view().font_view() == font,
            r.editor_view().text_view() == self.editor_view().text_view(),
            r.editor_view().brush_view() == self.editor_view().brush_view(),
            r.editor_view().alignment_view() == self.editor_view().alignment_view(),
            r.editor_view().rebuild_view(),
            r.same_settings(&self),
    {
        let mut this = self;
        this.editor.set_font(font);
        this
    }

    pub fn with_font_family(self, font: FontFamily) -> (r: Textbox)
        ensures
            r.editor_view().font_view() == FontStack::Single(font),
            r.editor_view().text_view() == self.editor_view().text_view(),
            r.editor_view().brush_view() == self.editor_view().brush_view(),
            r.editor_view().alignment_view() == self.editor_view().alignment_view(),
            r.editor_view().rebuild_view(),
            r.same_settings(&self),
    {
        self.with_font(FontStack::Single(font))
    }

    /// Sets the fonts; a layout is requested.
    pub fn set_font(this: WidgetMut<'_, Self>, font_stack: FontStack)
        ensures
            final(this.widget).editor_view().font_view() == font_stack,
            final(this.widget).editor_view().text_view() == old(this.widget).editor_view().text_view(),
            final(this.widget).editor_view().brush_view() == old(this.widget).editor_view().brush_view(),
            final(this.widget).editor_view().rebuild_view(),
            final(this.widget).same_settings(&*old(this.widget)),
            final(this.ctx).needs_layout,
            final(this.ctx).needs_render == old(this.ctx).needs_render,
    {
        Self::set_text_properties(this, TextEdit::SetFont(font_stack));
    }

    /// Sets a single font family; a layout is requested.
    pub fn set_font_family(this: WidgetMut<'_, Self>, family: FontFamily)
        ensures
            final(this.widget).editor_view().font_view() == FontStack::Single(family),
            final(this.widget).editor_view().text_view() == old(this.widget).editor_view().text_view(),
            final(this.widget).editor_view().brush_view() == old(this.widget).editor_view().brush_view(),
            final(this.widget).editor_view().rebuild_view(),
            final(this.widget).same_settings(&*old(this.widget)),
            final(this.ctx).needs_layout,
            final(this.ctx).needs_render == old(this.ctx).needs_render,
    {
        Self::set_font(this, FontStack::Single(family));
    }

    /// A description for debugging: the first characters of the text.
    pub fn get_debug_text(&self) -> (r: Option<String>)
        ensures
            r is Some,
            r.unwrap()@ == self.editor_view().text_view().take(
                if self.editor_view().text_view().len() < DEBUG_TEXT_LEN { self.editor_view().text_view().len() as int }
                else { DEBUG_TEXT_LEN as int },
            ),
    {
        broadcast use vstd::string::axiom_spec_iter, vstd::string::next_postcondition;
        let text = self.text();
        let mut chars = text.chars();
        let mut r = String::new();
        let mut k: usize = 0;
        while k < DEBUG_TEXT_LEN
            invariant
                k <= DEBUG_TEXT_LEN,
                r@.len() == k,
                r@ + chars.remaining() == text@,
                text@ == self.editor_view().text_view(),
                chars.obeys_prophetic_iter_laws(),
            decreases DEBUG_TEXT_LEN - k,
        {
            let ghost before = chars.remaining();
            match chars.next() {
                Some(c) => {
                    push_char(&mut r, c);
                    k = k + 1;
                    assert(r@ + chars.remaining() =~= text@) by {
                        assert(before =~= seq![c] + before.drop_first());
                    }
                },
                None => {
                    assert(r@ =~= text@);
                    assert(text@.len() < DEBUG_TEXT_LEN);
                    assert(text@.take(text@.len() as int) =~= text@);
                    return Some(r);
                },
            }
        }
        assert(r@ =~= text@.take(DEBUG_TEXT_LEN as int));
        Some(r)
    }

    /// A text box can take focus.
    pub fn accepts_focus(&self) -> (r: bool)
        ensures
            r,
    {
        true
    }

    /// A text box takes text input.
    pub fn accepts_text_input(&self) -> (r: bool)
        ensures
            r,
    {
        true
    }

    /// Reacts to a change of status: focus changes are passed to the editor,
    /// and while the widget shows that it is disabled its text takes the
    /// disabled colour; both request a layout.
    pub fn update(&mut self, ctx: &mut WidgetState, event: Update)
        ensures
            final(self).same_settings(&*old(self)),
            final(self).editor_view().text_view() == old(self).editor_view().text_view(),
            final(self).editor_view().alignment_view() == old(self).editor_view().alignment_view(),
            match event {
                Update::FocusChanged(f) => {
                    &&& final(self).editor_view().focus_view() == f
                    &&& final(self).editor_view().brush_view() == old(self).editor_view().brush_view()
                    &&& !f ==> !final(self).editor_view().preedit_view()
                    &&& f ==> final(self).editor_view().preedit_view() == old(self).editor_view().preedit_view()
                    &&& final(self).editor_view().rebuild_view()
                    &&& final(ctx).needs_layout
                },
                Update::DisabledChanged(d) => {
                    &&& final(self).editor_view().focus_view() == old(self).editor_view().focus_view()
                    &&& final(self).editor_view().preedit_view() == old(self).editor_view().preedit_view()
                    &&& final(self).editor_view().brush_view() == if !old(self).show_disabled_view() {
                        old(self).editor_view().brush_view()
                    } else if d {
                        TextBrush { rgba: DISABLED_TEXT_COLOR }
                    } else {
                        old(self).brush_view()
                    }
                    &&& final(ctx).needs_layout
                },
                Update::HoveredChanged(_) => {
                    &&& *final(self).editor_view() == *old(self).editor_view()
                    &&& final(ctx).needs_layout == old(ctx).needs_layout
                },
            },
            final(ctx).needs_render == old(ctx).needs_render,
            final(ctx).is_focused == old(ctx).is_focused,
            final(ctx).is_disabled == old(ctx).is_disabled,
    {
        match event {
            Update::FocusChanged(false) => {
                self.editor.focus_lost();
                ctx.needs_layout = true;
            },
            Update::FocusChanged(true) => {
                self.editor.focus_gained();
                ctx.needs_layout = true;
            },
            Update::DisabledChanged(disabled) => {
                if self.show_disabled {
                    if disabled {
                        self.editor.set_brush(TextBrush { rgba: DISABLED_TEXT_COLOR });
                    } else {
                        let brush = self.brush;
                        self.editor.set_brush(brush);
                    }
                }
                ctx.needs_layout = true;
            },
            Update::HoveredChanged(_) => {},
        }
    }

    /// Applies `edit` to the text properties, requesting a layout when the
    /// text's layout has to be rebuilt afterwards.
    pub fn set_text_properties(this: WidgetMut<'_, Self>, edit: TextEdit)
        ensures
            ({
                let (t, b, rb) = edit_result(
                    edit,
                    old(this.widget).editor_view().text_view(),
                    old(this.widget).editor_view().brush_view(),
                    old(this.widget).editor_view().rebuild_view(),
                );
                &&& final(this.widget).editor_view().text_view() == t
                &&& final(this.widget).editor_view().brush_view() == b
                &&& final(this.widget).editor_view().rebuild_view() == rb
                &&& final(this.ctx).needs_layout == (old(this.ctx).needs_layout || rb)
            }),
            final(this.widget).editor_view().alignment_view()
                == edit_alignment(edit, old(this.widget).editor_view().alignment_view()),
            final(this.widget).editor_view().font_view() == edit_font(edit, old(this.widget).editor_view().font_view()),
            final(this.widget).editor_view().focus_view() == old(this.widget).editor_view().focus_view(),
            final(this.widget).editor_view().preedit_view() == old(this.widget).editor_view().preedit_view(),
            final(this.widget).same_settings(&*old(this.widget)),
            final(this.ctx).needs_render == old(this.ctx).needs_render,
            final(this.ctx).is_focused == old(this.ctx).is_focused,
            final(this.ctx).is_disabled == old(this.ctx).is_disabled,
    {
        match edit {
            TextEdit::SetText(t) => this.widget.editor.set_text(t),
            TextEdit::SetBrush(b) => this.widget.editor.set_brush(b),
            TextEdit::SetAlignment(a) => this.widget.editor.set_text_alignment(a),
            TextEdit::SetFont(f) => this.widget.editor.set_font(f),
        }
        if this.widget.editor.needs_rebuild() {
            this.ctx.needs_layout = true;
        }
    }

    /// Resets the contents of the text box, discarding any pending composition.
    pub fn reset_text(this: WidgetMut<'_, Self>, new_text: String)
        ensures
            final(this.widget).editor_view().text_view() == new_text@,
            final(this.widget).editor_view().brush_view() == old(this.widget).editor_view().brush_view(),
            !final(this.widget).editor_view().preedit_view(),
            final(this.widget).editor_view().rebuild_view(),
            final(this.widget).same_settings(&*old(this.widget)),
            final(this.ctx).needs_layout,
            final(this.ctx).needs_render == old(this.ctx).needs_render,
            final(this.ctx).is_focused == old(this.ctx).is_focused,
            final(this.ctx).is_disabled == old(this.ctx).is_disabled,
    {
        this.widget.editor.reset_preedit();
        Self::set_text_properties(this, TextEdit::SetText(new_text));
    }

    /// Sets the brush; while the widget is enabled the text is redrawn with it.
    pub fn set_text_brush(this: WidgetMut<'_, Self>, brush: TextBrush)
        ensures
            final(this.widget).brush_view() == brush,
            final(this.widget).line_break_view() == old(this.widget).line_break_view(),
            final(this.widget).show_disabled_view() == old(this.widget).show_disabled_view(),
            final(this.widget).editor_view().text_view() == old(this.widget).editor_view().text_view(),
            final(this.widget).editor_view().preedit_view() == old(this.widget).editor_view().preedit_view(),
            old(this.ctx).is_disabled ==> *final(this.widget).editor_view() == *old(this.widget).editor_view()
                && final(this.widget).editor_view().brush_view() == old(this.widget).editor_view().brush_view()
                && final(this.widget).editor_view().rebuild_view() == old(this.widget).editor_view().rebuild_view()
                && *final(this.ctx) == *old(this.ctx),
            !old(this.ctx).is_disabled ==> ({
                let rb = old(this.widget).editor_view().rebuild_view() || old(this.widget).editor_view().brush_view() != brush;
                &&& final(this.widget).editor_view().brush_view() == brush
                &&& final(this.widget).editor_view().rebuild_view() == rb
                &&& final(this.ctx).needs_layout == (old(this.ctx).needs_layout || rb)
                &&& final(this.ctx).needs_render == old(this.ctx).needs_render
                &&& final(this.ctx).is_focused == old(this.ctx).is_focused
                &&& final(this.ctx).is_disabled == old(this.ctx).is_disabled
            }),
    {
        this.widget.brush = brush;
        if !this.ctx.is_disabled {
            Self::set_text_properties(this, TextEdit::SetBrush(brush));
        }
    }

    /// Sets how overlong lines are handled; the widget has to be painted again.
    pub fn set_line_break_mode(this: WidgetMut<'_, Self>, line_break_mode: LineBreaking)
        ensures
            final(this.widget).line_break_view() == line_break_mode,
            final(this.widget).editor_view() == old(this.widget).editor_view(),
            final(this.widget).brush_view() == old(this.widget).brush_view(),
            final(this.widget).show_disabled_view() == old(this.widget).show_disabled_view(),
            final(this.ctx).needs_render,
            final(this.ctx).needs_layout == old(this.ctx).needs_layout,
            final(this.ctx).is_focused == old(this.ctx).is_focused,
            final(this.ctx).is_disabled == old(this.ctx).is_disabled,
    {
        this.widget.line_break_mode = line_break_mode;
        this.ctx.needs_render = true;
    }
}

} // verus!
