use xilem_stack::{
    zstack, AnyView, AnyWidget, MessageResult, SeqState, TextBrush, TextboxView, ViewCtx, ZStack, ZStackSequence,
};

fn text_view(s: &str, target: usize) -> Option<AnyView> {
    Some(AnyView::Textbox(TextboxView {
        contents: s.to_string(),
        brush: TextBrush { rgba: 0x000000ff },
        target,
    }))
}

fn texts(stack: &ZStack) -> Vec<String> {
    let mut r = Vec::new();
    for i in 0..stack.len() {
        match &stack.child(i).widget {
            AnyWidget::Textbox(tb) => r.push(tb.text().to_string()),
            AnyWidget::Spacer => r.push(String::from("<spacer>")),
        }
    }
    r
}

fn ids(state: &SeqState) -> Vec<Option<u64>> {
    state.ids().clone()
}

#[test]
fn build_creates_one_child_per_present_view() {
    let mut ctx = ViewCtx::new();
    let view = zstack(ZStackSequence::new(vec![text_view("a", 0), None, Some(AnyView::Spacer)]));
    let (stack, state) = view.build(&mut ctx);
    assert_eq!(stack.len(), 2);
    assert_eq!(stack.child_ids(), vec![0, 1]);
    assert_eq!(ids(&state), vec![Some(0), None, Some(1)]);
    assert_eq!(texts(&stack), vec!["a".to_string(), "<spacer>".to_string()]);
}

#[test]
fn delete_then_insert_scenario() {
    let mut ctx = ViewCtx::new();
    let v1 = zstack(ZStackSequence::new(vec![text_view("A", 0), text_view("B", 1), text_view("C", 2)]));
    let (mut stack, mut state) = v1.build(&mut ctx);
    let first = stack.child_ids();
    assert_eq!(first.len(), 3);
    let (ea, ec) = (first[0], first[2]);

    let v2 = zstack(ZStackSequence::new(vec![text_view("A", 0), None, text_view("C", 2)]));
    v2.rebuild(&v1, &mut state, &mut ctx, &mut stack);
    assert_eq!(stack.child_ids(), vec![ea, ec]);
    assert_eq!(texts(&stack), vec!["A".to_string(), "C".to_string()]);

    let v3 = zstack(ZStackSequence::new(vec![text_view("A", 0), text_view("D", 1), text_view("C", 2)]));
    v3.rebuild(&v2, &mut state, &mut ctx, &mut stack);
    let last = stack.child_ids();
    assert_eq!(last.len(), 3);
    assert_eq!(last[0], ea);
    assert_eq!(last[2], ec);
    assert!(last[1] != ea && last[1] != ec && !first.contains(&last[1]));
    assert_eq!(texts(&stack), vec!["A".to_string(), "D".to_string(), "C".to_string()]);
}

#[test]
fn identical_rebuild_keeps_every_element() {
    let mut ctx = ViewCtx::new();
    let v = zstack(ZStackSequence::new(vec![text_view("x", 0), None, Some(AnyView::Spacer), text_view("y", 1)]));
    let (mut stack, mut state) = v.build(&mut ctx);
    let before_ids = stack.child_ids();
    let before_state = ids(&state);
    let same = zstack(ZStackSequence::new(vec![text_view("x", 0), None, Some(AnyView::Spacer), text_view("y", 1)]));
    same.rebuild(&v, &mut state, &mut ctx, &mut stack);
    assert_eq!(stack.child_ids(), before_ids);
    assert_eq!(ids(&state), before_state);
    assert_eq!(texts(&stack), vec!["x".to_string(), "<spacer>".to_string(), "y".to_string()]);
}

#[test]
fn rebuild_updates_text_in_place() {
    let mut ctx = ViewCtx::new();
    let v1 = zstack(ZStackSequence::new(vec![text_view("old", 0)]));
    let (mut stack, mut state) = v1.build(&mut ctx);
    let id = stack.child_ids()[0];
    let v2 = zstack(ZStackSequence::new(vec![text_view("new", 0)]));
    v2.rebuild(&v1, &mut state, &mut ctx, &mut stack);
    assert_eq!(stack.child_ids(), vec![id]);
    assert_eq!(texts(&stack), vec!["new".to_string()]);
    assert!(stack.child(0).state.needs_layout);
}

#[test]
fn shape_change_replaces_element_at_same_position() {
    let mut ctx = ViewCtx::new();
    let v1 = zstack(ZStackSequence::new(vec![text_view("a", 0), text_view("b", 1), text_view("c", 2)]));
    let (mut stack, mut state) = v1.build(&mut ctx);
    let before = stack.child_ids();
    let v2 = zstack(ZStackSequence::new(vec![text_view("a", 0), Some(AnyView::Spacer), text_view("c", 2)]));
    v2.rebuild(&v1, &mut state, &mut ctx, &mut stack);
    let after = stack.child_ids();
    assert_eq!(after.len(), 3);
    assert_eq!(after[0], before[0]);
    assert_eq!(after[2], before[2]);
    assert!(!before.contains(&after[1]));
    assert_eq!(texts(&stack), vec!["a".to_string(), "<spacer>".to_string(), "c".to_string()]);
}

#[test]
fn removal_shifts_later_elements_down() {
    let mut ctx = ViewCtx::new();
    let v1 = zstack(ZStackSequence::new(vec![text_view("0", 0), text_view("1", 1), text_view("2", 2), text_view("3", 3)]));
    let (mut stack, mut state) = v1.build(&mut ctx);
    let before = stack.child_ids();
    let v2 = zstack(ZStackSequence::new(vec![text_view("0", 0), None, text_view("2", 2), text_view("3", 3)]));
    v2.rebuild(&v1, &mut state, &mut ctx, &mut stack);
    assert_eq!(stack.child_ids(), vec![before[0], before[2], before[3]]);
    assert_eq!(ids(&state), vec![Some(before[0]), None, Some(before[2]), Some(before[3])]);
}

#[test]
fn shorter_and_longer_sequences() {
    let mut ctx = ViewCtx::new();
    let v1 = zstack(ZStackSequence::new(vec![text_view("a", 0), text_view("b", 1)]));
    let (mut stack, mut state) = v1.build(&mut ctx);
    let before = stack.child_ids();
    let v2 = zstack(ZStackSequence::new(vec![text_view("a", 0)]));
    v2.rebuild(&v1, &mut state, &mut ctx, &mut stack);
    assert_eq!(stack.child_ids(), vec![before[0]]);
    assert_eq!(ids(&state).len(), 1);
    let v3 = zstack(ZStackSequence::new(vec![text_view("a", 0), None, text_view("z", 1)]));
    v3.rebuild(&v2, &mut state, &mut ctx, &mut stack);
    assert_eq!(stack.len(), 2);
    assert_eq!(stack.child_ids()[0], before[0]);
    assert_eq!(texts(&stack), vec!["a".to_string(), "z".to_string()]);
}

#[test]
fn empty_sequence() {
    let mut ctx = ViewCtx::new();
    let v = zstack(ZStackSequence::new(vec![]));
    let (mut stack, mut state) = v.build(&mut ctx);
    assert_eq!(stack.len(), 0);
    v.teardown(&mut state, &mut ctx, &mut stack);
    assert_eq!(stack.len(), 0);
}

#[test]
fn teardown_keeps_elements_and_releases_focus() {
    let mut ctx = ViewCtx::new();
    let v = zstack(ZStackSequence::new(vec![text_view("a", 0), Some(AnyView::Spacer), text_view("c", 1)]));
    let (mut stack, mut state) = v.build(&mut ctx);
    let before = stack.child_ids();
    v.teardown(&mut state, &mut ctx, &mut stack);
    assert_eq!(stack.child_ids(), before);
    for i in 0..stack.len() {
        assert!(!stack.child(i).state.is_focused);
    }
}

#[test]
fn message_reaches_addressed_textbox() {
    let mut ctx = ViewCtx::new();
    let v = zstack(ZStackSequence::new(vec![text_view("a", 0), text_view("b", 1)]));
    let (_stack, state) = v.build(&mut ctx);
    let id = state.ids()[1].unwrap();
    let mut app = vec![String::from("a"), String::from("b")];
    let r = v.message(&state, &[id], String::from("typed"), &mut app);
    assert!(matches!(r, MessageResult::Action(1)));
    assert_eq!(app, vec![String::from("a"), String::from("typed")]);
}

#[test]
fn message_to_removed_position_is_stale() {
    let mut ctx = ViewCtx::new();
    let v1 = zstack(ZStackSequence::new(vec![text_view("a", 0), text_view("b", 1)]));
    let (mut stack, mut state) = v1.build(&mut ctx);
    let gone = state.ids()[1].unwrap();
    let v2 = zstack(ZStackSequence::new(vec![text_view("a", 0), None]));
    v2.rebuild(&v1, &mut state, &mut ctx, &mut stack);
    let mut app = vec![String::from("a"), String::from("b")];
    let r = v2.message(&state, &[gone], String::from("late"), &mut app);
    match r {
        MessageResult::Stale(p) => assert_eq!(p, "late"),
        _ => panic!("expected a stale result"),
    }
    assert_eq!(app, vec![String::from("a"), String::from("b")]);
}

#[test]
fn message_with_empty_or_too_long_path_is_stale() {
    let mut ctx = ViewCtx::new();
    let v = zstack(ZStackSequence::new(vec![text_view("a", 0)]));
    let (_stack, state) = v.build(&mut ctx);
    let id = state.ids()[0].unwrap();
    let mut app = vec![String::from("a")];
    assert!(matches!(v.message(&state, &[], String::from("x"), &mut app), MessageResult::Stale(_)));
    assert!(matches!(v.message(&state, &[id, 99], String::from("x"), &mut app), MessageResult::Stale(_)));
    assert_eq!(app, vec![String::from("a")]);
}

#[test]
fn message_to_textbox_with_unknown_target_is_nop() {
    let mut ctx = ViewCtx::new();
    let v = zstack(ZStackSequence::new(vec![text_view("a", 5)]));
    let (_stack, state) = v.build(&mut ctx);
    let id = state.ids()[0].unwrap();
    let mut app = vec![String::from("a")];
    assert!(matches!(v.message(&state, &[id], String::from("x"), &mut app), MessageResult::Nop));
    assert_eq!(app, vec![String::from("a")]);
}

fn brushes(stack: &ZStack, i: usize) -> (TextBrush, TextBrush) {
    match &stack.child(i).widget {
        AnyWidget::Textbox(tb) => (tb.brush(), tb.editor().brush()),
        AnyWidget::Spacer => panic!("expected a text box"),
    }
}

fn tinted(s: &str, rgba: u32) -> Option<AnyView> {
    Some(AnyView::Textbox(TextboxView { contents: s.to_string(), brush: TextBrush { rgba }, target: 0 }))
}

#[test]
fn build_and_rebuild_apply_brushes() {
    let mut ctx = ViewCtx::new();
    let v1 = zstack(ZStackSequence::new(vec![tinted("a", 7), tinted("b", 8)]));
    let (mut stack, mut state) = v1.build(&mut ctx);
    assert_eq!(brushes(&stack, 0), (TextBrush { rgba: 7 }, TextBrush { rgba: 7 }));
    assert_eq!(brushes(&stack, 1), (TextBrush { rgba: 8 }, TextBrush { rgba: 8 }));
    let v2 = zstack(ZStackSequence::new(vec![tinted("a", 9), tinted("b", 8)]));
    v2.rebuild(&v1, &mut state, &mut ctx, &mut stack);
    assert_eq!(brushes(&stack, 0), (TextBrush { rgba: 9 }, TextBrush { rgba: 9 }));
    assert_eq!(brushes(&stack, 1), (TextBrush { rgba: 8 }, TextBrush { rgba: 8 }));
    assert_eq!(texts(&stack), vec!["a".to_string(), "b".to_string()]);
}

#[test]
fn many_insertions_keep_view_order() {
    let mut ctx = ViewCtx::new();
    let v1 = zstack(ZStackSequence::new(vec![None, text_view("m", 0), None, None]));
    let (mut stack, mut state) = v1.build(&mut ctx);
    let v2 = zstack(ZStackSequence::new(vec![text_view("a", 0), text_view("m", 0), text_view("x", 0), text_view("y", 0)]));
    v2.rebuild(&v1, &mut state, &mut ctx, &mut stack);
    assert_eq!(texts(&stack), vec!["a".to_string(), "m".to_string(), "x".to_string(), "y".to_string()]);
    let ids = stack.child_ids();
    assert_eq!(ids[1], 0);
    assert_eq!(ids.len(), 4);
}
