use light_field_test::controls::{redraw_decisions, RedrawAction, SolverFlags};
use light_field_test::controls::{
    movement_key, DisplayFlags, Key, KeyAction, KeyboardControl, Movement, Notice,
};

fn flags() -> Option<DisplayFlags> {
    Some(DisplayFlags { displaying_panel_textures: false, distort_rays: false })
}

#[test]
fn new_control_starts_idle() {
    let k = KeyboardControl::new();
    assert!(k.pressed_keys.is_empty());
    assert!(!k.disable_controls && !k.cache_stereo && !k.mouse_on_ui);
}

#[test]
fn minus_toggles_controls() {
    let mut k = KeyboardControl::new();
    let mut f = flags();
    assert_eq!(
        k.process_keyboard(Key::Minus, true, &mut f),
        vec![KeyAction::Info(Notice::ControlsDisabled)]
    );
    assert!(k.disable_controls);
    assert_eq!(
        k.process_keyboard(Key::Minus, true, &mut f),
        vec![KeyAction::Info(Notice::ControlsEnabled)]
    );
    assert!(!k.disable_controls);
    assert_eq!(k.pressed_keys, vec![Key::Minus]);
}

#[test]
fn release_and_ui_presses_change_nothing() {
    let mut k = KeyboardControl::new();
    let mut f = flags();
    assert!(k.process_keyboard(Key::Minus, false, &mut f).is_empty());
    assert!(!k.disable_controls);
    assert!(k.pressed_keys.is_empty());
    k.mouse_on_ui = true;
    assert!(k.process_keyboard(Key::KeyM, true, &mut f).is_empty());
    assert_eq!(f, flags());
}

#[test]
fn save_and_screenshot_need_state() {
    let mut k = KeyboardControl::new();
    let mut f = flags();
    let mut none: Option<DisplayFlags> = None;
    assert_eq!(
        k.process_keyboard(Key::Backslash, true, &mut f),
        vec![KeyAction::Info(Notice::SavingScene), KeyAction::SaveScene]
    );
    assert_eq!(
        k.process_keyboard(Key::Backslash, true, &mut none),
        vec![KeyAction::Info(Notice::SavingScene)]
    );
    assert_eq!(
        k.process_keyboard(Key::Enter, true, &mut f),
        vec![KeyAction::Info(Notice::SavingImage), KeyAction::RequestScreenshot]
    );
    assert_eq!(
        k.process_keyboard(Key::Enter, true, &mut none),
        vec![KeyAction::Info(Notice::SavingImage)]
    );
}

#[test]
fn brackets_need_shift() {
    let mut k = KeyboardControl::new();
    let mut f = flags();
    assert!(k.process_keyboard(Key::BracketRight, true, &mut f).is_empty());
    assert!(k.process_keyboard(Key::Period, true, &mut f).is_empty());
    k.process_keyboard(Key::ShiftLeft, true, &mut f);
    assert_eq!(
        k.process_keyboard(Key::BracketRight, true, &mut f),
        vec![KeyAction::Info(Notice::LoadingNextSave), KeyAction::LoadNextSave, KeyAction::NextCamera]
    );
    assert_eq!(
        k.process_keyboard(Key::BracketLeft, true, &mut f),
        vec![KeyAction::LoadPreviousSave, KeyAction::Info(Notice::PreviousNextSave), KeyAction::NextCamera]
    );
    assert_eq!(k.process_keyboard(Key::Comma, true, &mut f), vec![KeyAction::PreviousCamera]);
    assert_eq!(k.process_keyboard(Key::Period, true, &mut f), vec![KeyAction::NextCamera]);
    let mut none: Option<DisplayFlags> = None;
    assert!(k.process_keyboard(Key::BracketRight, true, &mut none).is_empty());
}

#[test]
fn key_p_flow_both_outcomes() {
    let mut k = KeyboardControl::new();
    let mut f = flags();
    assert_eq!(k.process_keyboard(Key::KeyP, true, &mut f), vec![KeyAction::LoadOutput { stereo: true }]);
    assert!(k.cache_stereo);
    assert_eq!(
        k.after_load_output(true),
        vec![KeyAction::Info(Notice::DisplayingStereo), KeyAction::UpdatePanels]
    );
    assert!(k.cache_stereo);
    assert_eq!(k.process_keyboard(Key::KeyP, true, &mut f), vec![KeyAction::LoadOutput { stereo: false }]);
    assert_eq!(k.after_load_output(false), vec![KeyAction::Warning(Notice::NoOutputInCache)]);
    assert!(k.cache_stereo);
    k.cache_stereo = false;
    assert_eq!(
        k.after_load_output(true),
        vec![KeyAction::Info(Notice::DisplayingSeparable), KeyAction::UpdatePanels]
    );
    let mut none: Option<DisplayFlags> = None;
    assert!(k.process_keyboard(Key::KeyP, true, &mut none).is_empty());
    assert!(!k.cache_stereo);
}

#[test]
fn key_m_and_n_flip_flags() {
    let mut k = KeyboardControl::new();
    let mut f = flags();
    assert_eq!(
        k.process_keyboard(Key::KeyM, true, &mut f),
        vec![KeyAction::UpdatePanelTexture, KeyAction::Info(Notice::TexturesOnPanels)]
    );
    assert!(f.unwrap().displaying_panel_textures);
    assert_eq!(
        k.process_keyboard(Key::KeyM, true, &mut f),
        vec![KeyAction::UpdatePanelTexture, KeyAction::Info(Notice::PanelsTransparent)]
    );
    assert_eq!(
        k.process_keyboard(Key::KeyN, true, &mut f),
        vec![KeyAction::Info(Notice::NearestNeighbour)]
    );
    assert!(f.unwrap().distort_rays);
    assert_eq!(
        k.process_keyboard(Key::KeyN, true, &mut f),
        vec![KeyAction::Info(Notice::NoNearestNeighbour)]
    );
    let mut none: Option<DisplayFlags> = None;
    assert_eq!(k.process_keyboard(Key::KeyM, true, &mut none), vec![KeyAction::UpdatePanelTexture]);
    assert!(k.process_keyboard(Key::KeyN, true, &mut none).is_empty());
    assert_eq!(k.process_keyboard(Key::KeyO, true, &mut none), vec![KeyAction::PrintCompute]);
    assert!(k.process_keyboard(Key::Other, true, &mut none).is_empty());
}

#[test]
fn pressed_keys_are_recorded_once() {
    let mut k = KeyboardControl::new();
    let mut f = flags();
    for key in [Key::KeyO, Key::KeyW, Key::KeyO, Key::KeyW, Key::Other] {
        k.process_keyboard(key, true, &mut f);
    }
    assert_eq!(k.pressed_keys, vec![Key::KeyO, Key::KeyW, Key::Other]);
}

#[test]
fn movement_keys_map_to_directions() {
    assert_eq!(movement_key(Key::KeyW, true, false), Some((Movement::Forward, true)));
    assert_eq!(movement_key(Key::KeyS, false, false), Some((Movement::Backward, false)));
    assert_eq!(movement_key(Key::KeyA, true, true), Some((Movement::Left, false)));
    assert_eq!(movement_key(Key::KeyD, true, false), Some((Movement::Right, true)));
    assert_eq!(movement_key(Key::Space, true, false), Some((Movement::Up, true)));
    assert_eq!(movement_key(Key::CapsLock, true, false), Some((Movement::Down, true)));
    assert_eq!(movement_key(Key::Enter, true, false), None);
}

#[test]
fn display_toggles_twice_restore_flags() {
    let mut k = KeyboardControl::new();
    let mut f = Some(DisplayFlags { displaying_panel_textures: true, distort_rays: false });
    let before = f;
    k.process_keyboard(Key::KeyM, true, &mut f);
    k.process_keyboard(Key::KeyM, true, &mut f);
    assert_eq!(f, before);
    k.process_keyboard(Key::KeyN, true, &mut f);
    k.process_keyboard(Key::KeyN, true, &mut f);
    assert_eq!(f, before);
}

#[test]
fn redraw_serves_requests_in_order() {
    let mut sep = SolverFlags { will_sample: true, will_solve: true };
    let mut stereo = SolverFlags { will_sample: false, will_solve: true };
    let mut textures = false;
    let actions = redraw_decisions(&mut sep, &mut stereo, &mut textures, false);
    assert_eq!(
        actions,
        vec![
            RedrawAction::Info(Notice::SavedCamera),
            RedrawAction::SaveCameraPoint,
            RedrawAction::SolveSeparable,
            RedrawAction::SolveStereo,
        ]
    );
    assert!(textures);
    assert_eq!(sep, SolverFlags { will_sample: false, will_solve: false });
    assert_eq!(stereo, SolverFlags { will_sample: false, will_solve: false });
}

#[test]
fn redraw_does_nothing_when_minimized_or_idle() {
    let mut sep = SolverFlags { will_sample: true, will_solve: true };
    let mut stereo = SolverFlags { will_sample: true, will_solve: false };
    let mut textures = false;
    assert!(redraw_decisions(&mut sep, &mut stereo, &mut textures, true).is_empty());
    assert_eq!(sep, SolverFlags { will_sample: true, will_solve: true });
    assert!(!textures);
    let actions = redraw_decisions(&mut stereo, &mut SolverFlags { will_sample: false, will_solve: false }, &mut textures, false);
    assert_eq!(actions, vec![RedrawAction::Info(Notice::SavedCamera), RedrawAction::SaveCameraPoint]);
    assert!(!textures);
}
