use agent::app::pickers::{InterviewPickerState, ModelPickerState};

#[test]
fn interview_picker_move_up_down() {
    let mut picker = InterviewPickerState {
        question: "test?".into(),
        suggestions: vec!["a".into(), "b".into(), "c".into()],
        selected: 0,
        custom_input: String::new(),
        custom_mode: false,
    };
    picker.move_down();
    assert_eq!(picker.selected, 1);
    picker.move_down();
    assert_eq!(picker.selected, 2);
    picker.move_down();
    assert_eq!(picker.selected, 2);
    picker.move_up();
    assert_eq!(picker.selected, 1);
    picker.move_up();
    assert_eq!(picker.selected, 0);
    picker.move_up();
    assert_eq!(picker.selected, 0);
}

#[test]
fn interview_picker_custom_mode_ignores_nav() {
    let mut picker = InterviewPickerState {
        question: "test?".into(),
        suggestions: vec!["a".into(), "b".into()],
        selected: 0,
        custom_input: String::new(),
        custom_mode: true,
    };
    picker.move_down();
    assert_eq!(picker.selected, 0);
}

#[test]
fn interview_picker_submit_suggestion() {
    let mut picker = InterviewPickerState {
        question: "test?".into(),
        suggestions: vec!["alpha".into(), "beta".into()],
        selected: 1,
        custom_input: String::new(),
        custom_mode: false,
    };
    let answer = picker.submit();
    assert_eq!(answer, Some("beta".into()));
}

#[test]
fn interview_picker_submit_custom() {
    let mut picker = InterviewPickerState {
        question: "test?".into(),
        suggestions: vec!["a".into()],
        selected: 0,
        custom_input: "my answer".into(),
        custom_mode: true,
    };
    let answer = picker.submit();
    assert_eq!(answer, Some("my answer".into()));
}

#[test]
fn interview_picker_submit_empty_custom_falls_back() {
    let mut picker = InterviewPickerState {
        question: "test?".into(),
        suggestions: vec!["fallback".into()],
        selected: 0,
        custom_input: String::new(),
        custom_mode: true,
    };
    let answer = picker.submit();
    assert_eq!(answer, Some("fallback".into()));
}

#[test]
fn interview_picker_submit_no_suggestion_is_none() {
    let mut picker = InterviewPickerState {
        question: "test?".into(),
        suggestions: vec![],
        selected: 0,
        custom_input: String::new(),
        custom_mode: false,
    };
    assert_eq!(picker.submit(), None);
}

#[test]
fn model_picker_navigation_and_selection() {
    let mut p = ModelPickerState {
        models: vec!["a".into(), "b".into()],
        selected: 0,
    };
    p.move_up();
    assert_eq!(p.selected, 0);
    p.move_down();
    assert_eq!(p.selected(), Some("b"));
    p.move_down();
    assert_eq!(p.selected, 1);
    p.selected = 7;
    assert_eq!(p.selected(), None);
}
