use xilem_stack::{
    Alignment, FontFamily, FontStack, GenericFamily, LineBreaking, TextBrush, TextEdit, Textbox, Update, WidgetMut, WidgetState, DISABLED_TEXT_COLOR,
    TEXT_COLOR,
};

fn ctx() -> WidgetState {
    WidgetState { is_focused: false, is_disabled: false, needs_layout: false, needs_render: false }
}

fn textbox(text: &str) -> Textbox {
    Textbox::new(text.to_string())
}

#[test]
fn new_textbox_defaults() {
    let tb = Textbox::new(String::from("hello"));
    assert_eq!(tb.text(), "hello");
    assert_eq!(tb.line_break_mode(), LineBreaking::WordWrap);
    assert_eq!(tb.brush(), TextBrush { rgba: TEXT_COLOR });
    assert_eq!(tb.editor().brush(), TextBrush { rgba: 0xf0f0eaff });
    assert!(tb.editor().needs_rebuild());
    assert!(!tb.editor().has_preedit());
}

#[test]
fn with_text_brush_sets_both_brushes() {
    let tb = Textbox::new(String::from("x")).with_text_brush(TextBrush { rgba: 0x11223344 });
    assert_eq!(tb.brush(), TextBrush { rgba: 0x11223344 });
    assert_eq!(tb.editor().brush(), TextBrush { rgba: 0x11223344 });
    assert_eq!(tb.text(), "x");
}

#[test]
fn with_line_break_mode_sets_mode() {
    let tb = Textbox::new(String::from("x")).with_line_break_mode(LineBreaking::Clip);
    assert_eq!(tb.line_break_mode(), LineBreaking::Clip);
}

#[test]
fn reset_text_replaces_text_and_requests_layout() {
    let mut tb = textbox("before");
    let mut state = ctx();
    Textbox::reset_text(WidgetMut { ctx: &mut state, widget: &mut tb }, String::from("after"));
    assert_eq!(tb.text(), "after");
    assert!(state.needs_layout);
    assert!(!state.needs_render);
    assert!(!tb.editor().has_preedit());
}

#[test]
fn set_text_properties_applies_edit() {
    let mut tb = textbox("a");
    let mut state = ctx();
    Textbox::set_text_properties(WidgetMut { ctx: &mut state, widget: &mut tb }, TextEdit::SetText(String::from("b")));
    assert_eq!(tb.text(), "b");
    assert!(state.needs_layout);
}

#[test]
fn set_text_brush_when_enabled_and_disabled() {
    let mut tb = textbox("a");
    let mut state = ctx();
    Textbox::set_text_brush(WidgetMut { ctx: &mut state, widget: &mut tb }, TextBrush { rgba: 1 });
    assert_eq!(tb.brush(), TextBrush { rgba: 1 });
    assert_eq!(tb.editor().brush(), TextBrush { rgba: 1 });
    assert!(state.needs_layout);

    let mut tb2 = textbox("a");
    let mut disabled = WidgetState { is_disabled: true, ..ctx() };
    Textbox::set_text_brush(WidgetMut { ctx: &mut disabled, widget: &mut tb2 }, TextBrush { rgba: 2 });
    assert_eq!(tb2.brush(), TextBrush { rgba: 2 });
    assert_eq!(tb2.editor().brush(), TextBrush { rgba: TEXT_COLOR });
    assert!(!disabled.needs_layout);
}

#[test]
fn set_line_break_mode_requests_render() {
    let mut tb = textbox("a");
    let mut state = ctx();
    Textbox::set_line_break_mode(WidgetMut { ctx: &mut state, widget: &mut tb }, LineBreaking::Overflow);
    assert_eq!(tb.line_break_mode(), LineBreaking::Overflow);
    assert!(state.needs_render);
    assert!(!state.needs_layout);
}

#[test]
fn alignment_builder_and_setter() {
    let tb = Textbox::new(String::from("a")).with_text_alignment(Alignment::End);
    assert_eq!(tb.editor().alignment(), Alignment::End);
    let mut tb = textbox("a");
    assert_eq!(tb.editor().alignment(), Alignment::Start);
    let mut state = ctx();
    Textbox::set_alignment(WidgetMut { ctx: &mut state, widget: &mut tb }, Alignment::Justified);
    assert_eq!(tb.editor().alignment(), Alignment::Justified);
    assert!(state.needs_layout);
}

#[test]
fn focus_changes_reach_editor() {
    let mut tb = textbox("a");
    let mut state = ctx();
    tb.update(&mut state, Update::FocusChanged(true));
    assert!(tb.editor().has_focus());
    assert!(state.needs_layout);
    let mut state = ctx();
    tb.update(&mut state, Update::FocusChanged(false));
    assert!(!tb.editor().has_focus());
    assert!(state.needs_layout);
}

#[test]
fn disabled_text_takes_disabled_colour() {
    let mut tb = textbox("a").with_text_brush(TextBrush { rgba: 5 });
    let mut state = ctx();
    tb.update(&mut state, Update::DisabledChanged(true));
    assert_eq!(tb.editor().brush(), TextBrush { rgba: DISABLED_TEXT_COLOR });
    assert_eq!(tb.brush(), TextBrush { rgba: 5 });
    assert!(state.needs_layout);
    tb.update(&mut state, Update::DisabledChanged(false));
    assert_eq!(tb.editor().brush(), TextBrush { rgba: 5 });
}

#[test]
fn hover_changes_nothing() {
    let mut tb = textbox("a");
    let mut state = ctx();
    tb.update(&mut state, Update::HoveredChanged(true));
    assert!(!state.needs_layout);
    assert_eq!(tb.text(), "a");
}

#[test]
fn textbox_accepts_focus_and_input() {
    let tb = textbox("");
    assert!(tb.accepts_focus());
    assert!(tb.accepts_text_input());
    assert_eq!(tb.text(), "");
}

fn is_single_named(f: &FontStack, name: &str) -> bool {
    match f {
        FontStack::Single(FontFamily::Named(n)) => n == name,
        _ => false,
    }
}

#[test]
fn font_builders_and_setters() {
    let tb = textbox("a");
    assert!(matches!(tb.editor().font(), FontStack::Single(FontFamily::Generic(GenericFamily::SystemUi))));
    let tb = tb.with_font_family(FontFamily::Named(String::from("Inter")));
    assert!(is_single_named(tb.editor().font(), "Inter"));
    let tb = tb.with_font(FontStack::List(vec![FontFamily::Generic(GenericFamily::Monospace)]));
    assert!(matches!(tb.editor().font(), FontStack::List(v) if v.len() == 1));

    let mut tb = textbox("a");
    let mut state = ctx();
    Textbox::set_font_family(WidgetMut { ctx: &mut state, widget: &mut tb }, FontFamily::Named(String::from("Serif Pro")));
    assert!(is_single_named(tb.editor().font(), "Serif Pro"));
    assert!(state.needs_layout);
    let mut state = ctx();
    Textbox::set_font(WidgetMut { ctx: &mut state, widget: &mut tb }, FontStack::Single(FontFamily::Generic(GenericFamily::Serif)));
    assert!(matches!(tb.editor().font(), FontStack::Single(FontFamily::Generic(GenericFamily::Serif))));
    assert!(state.needs_layout);
    assert_eq!(tb.text(), "a");
}

#[test]
fn debug_text_shows_short_text_whole() {
    assert_eq!(textbox("héllo").get_debug_text(), Some(String::from("héllo")));
    assert_eq!(textbox("").get_debug_text(), Some(String::new()));
}

#[test]
fn debug_text_keeps_first_hundred_characters() {
    let long: String = std::iter::repeat('é').take(150).collect();
    let expected: String = std::iter::repeat('é').take(100).collect();
    assert_eq!(textbox(&long).get_debug_text(), Some(expected));
}
