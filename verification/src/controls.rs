//! Keyboard decisions of the viewer: which key does what, and which
//! notices are shown.
use vstd::prelude::*;

verus! {

/// The keys the viewer reacts to; every other key is `Other`.
#[derive(Clone, Copy, Debug, PartialEq, Eq, Structural)]
pub enum Key {
    Minus,
    Backslash,
    Enter,
    BracketRight,
    BracketLeft,
    Comma,
    Period,
    KeyP,
    KeyM,
    KeyN,
    KeyO,
    KeyW,
    KeyS,
    KeyA,
    KeyD,
    Space,
    CapsLock,
    ShiftLeft,
    ShiftRight,
    Other,
}

/// Short messages shown to the user.
#[derive(Clone, Copy, Debug, PartialEq, Eq, Structural)]
pub enum Notice {
    ControlsDisabled,
    ControlsEnabled,
    SavingScene,
    SavingImage,
    LoadingNextSave,
    PreviousNextSave,
    DisplayingStereo,
    DisplayingSeparable,
    NoOutputInCache,
    TexturesOnPanels,
    PanelsTransparent,
    NearestNeighbour,
    NoNearestNeighbour,
    SavedCamera,
}

/// What the viewer does in answer to a key, in order.
#[derive(Clone, Copy, Debug, PartialEq, Eq, Structural)]
pub enum KeyAction {
    /// Show an information notice.
    Info(Notice),
    /// Show a warning notice.
    Warning(Notice),
    SaveScene,
    RequestScreenshot,
    LoadNextSave,
    LoadPreviousSave,
    NextCamera,
    PreviousCamera,
    /// Load the cached stereo (`true`) or separable (`false`) output and
    /// report back with `after_load_output`.
    LoadOutput { stereo: bool },
    UpdatePanels,
    UpdatePanelTexture,
    PrintCompute,
}

/// Display switches that live with the rendering state.
#[derive(Clone, Copy, Debug, PartialEq, Eq, Structural)]
pub struct DisplayFlags {
    pub displaying_panel_textures: bool,
    pub distort_rays: bool,
}

/// A shift key is among `keys`.
pub open spec fn shift_held(keys: Seq<Key>) -> bool {
    keys.contains(Key::ShiftLeft) || keys.contains(Key::ShiftRight)
}

/// The actions for a press of `key`, given whether shift is held, whether
/// the rendering state exists, and the switches after the press.
pub open spec fn key_actions(
    key: Key,
    shift: bool,
    has_state: bool,
    disable_controls: bool,
    cache_stereo: bool,
    flags: Option<DisplayFlags>,
) -> Seq<KeyAction> {
    match key {
        Key::Minus => seq![
            KeyAction::Info(
                if disable_controls {
                    Notice::ControlsDisabled
                } else {
                    Notice::ControlsEnabled
                },
            ),
        ],
        Key::Backslash => seq![KeyAction::Info(Notice::SavingScene)] + if has_state {
            seq![KeyAction::SaveScene]
        } else {
            Seq::empty()
        },
        Key::Enter => seq![KeyAction::Info(Notice::SavingImage)] + if has_state {
            seq![KeyAction::RequestScreenshot]
        } else {
            Seq::empty()
        },
        Key::BracketRight => if shift && has_state {
            seq![KeyAction::Info(Notice::LoadingNextSave), KeyAction::LoadNextSave, KeyAction::NextCamera]
        } else {
            Seq::empty()
        },
        Key::BracketLeft => if shift && has_state {
            seq![KeyAction::LoadPreviousSave, KeyAction::Info(Notice::PreviousNextSave), KeyAction::NextCamera]
        } else {
            Seq::empty()
        },
        Key::Comma => if shift {
            seq![KeyAction::PreviousCamera]
        } else {
            Seq::empty()
        },
        Key::Period => if shift {
            seq![KeyAction::NextCamera]
        } else {
            Seq::empty()
        },
        Key::KeyP => if has_state {
            seq![KeyAction::LoadOutput { stereo: cache_stereo }]
        } else {
            Seq::empty()
        },
        Key::KeyM => seq![KeyAction::UpdatePanelTexture] + match flags {
            Some(f) => seq![
                KeyAction::Info(
                    if f.displaying_panel_textures {
                        Notice::TexturesOnPanels
                    } else {
                        Notice::PanelsTransparent
                    },
                ),
            ],
            None => Seq::empty(),
        },
        Key::KeyN => match flags {
            Some(f) => seq![
                KeyAction::Info(
                    if f.distort_rays {
                        Notice::NearestNeighbour
                    } else {
                        Notice::NoNearestNeighbour
                    },
                ),
            ],
            None => Seq::empty(),
        },
        Key::KeyO => seq![KeyAction::PrintCompute],
        _ => Seq::empty(),
    }
}

/// The display switches after a press of `key`.
pub open spec fn flags_after(key: Key, flags: Option<DisplayFlags>) -> Option<DisplayFlags> {
    match flags {
        Some(f) => Some(
            match key {
                Key::KeyM => DisplayFlags { displaying_panel_textures: !f.displaying_panel_textures, ..f },
                Key::KeyN => DisplayFlags { distort_rays: !f.distort_rays, ..f },
                _ => f,
            },
        ),
        None => None,
    }
}

/// The stereo switch after a press of `key`: `KeyP` flips it while the
/// rendering state exists.
pub open spec fn stereo_after_press(cache_stereo: bool, key: Key, has_state: bool) -> bool {
    cache_stereo != (key == Key::KeyP && has_state)
}

/// The stereo switch after loading the chosen output: it flips back when
/// the output could not be loaded.
pub open spec fn stereo_after_load(cache_stereo: bool, loaded: bool) -> bool {
    cache_stereo != !loaded
}

/// The controls switch after a press of `key`: `Minus` flips it.
pub open spec fn controls_after_press(disable_controls: bool, key: Key) -> bool {
    disable_controls != (key == Key::Minus)
}

/// Law: when the output that a press of `KeyP` asks for is not in the
/// cache, the viewer keeps showing the output it showed before.
pub proof fn unavailable_output_keeps_choice(cache_stereo: bool)
    ensures
        stereo_after_load(stereo_after_press(cache_stereo, Key::KeyP, true), false) == cache_stereo,
        stereo_after_load(stereo_after_press(cache_stereo, Key::KeyP, true), true) == !cache_stereo,
{
}

/// Law: pressing `Minus` twice leaves the controls as they were, and no
/// other key changes them.
pub proof fn minus_twice_restores_controls(disable_controls: bool, key: Key)
    ensures
        controls_after_press(controls_after_press(disable_controls, Key::Minus), Key::Minus) == disable_controls,
        key != Key::Minus ==> controls_after_press(disable_controls, key) == disable_controls,
{
}

/// Law: pressing `KeyM` or `KeyN` twice leaves the display switches as
/// they were.
pub proof fn display_toggles_undo_themselves(key: Key, flags: Option<DisplayFlags>)
    requires
        key == Key::KeyM || key == Key::KeyN,
    ensures
        flags_after(key, flags_after(key, flags)) == flags,
{
}

/// Law: either shift key counts as shift. With `ShiftLeft` or `ShiftRight`
/// among the pressed keys, `.` moves to the next camera and `,` to the
/// previous one, and with the rendering state `]` and `[` load the next and
/// the previous save; without a shift key these presses do nothing.
pub proof fn either_shift_key_browses(keys: Seq<Key>, has_state: bool, disable: bool, stereo: bool, flags: Option<
    DisplayFlags,
>)
    ensures
        (keys.contains(Key::ShiftLeft) || keys.contains(Key::ShiftRight)) ==> {
            &&& key_actions(Key::Period, shift_held(keys), has_state, disable, stereo, flags) == seq![
                KeyAction::NextCamera,
            ]
            &&& key_actions(Key::Comma, shift_held(keys), has_state, disable, stereo, flags) == seq![
                KeyAction::PreviousCamera,
            ]
            &&& has_state ==> key_actions(Key::BracketRight, shift_held(keys), has_state, disable, stereo, flags)
                == seq![KeyAction::Info(Notice::LoadingNextSave), KeyAction::LoadNextSave, KeyAction::NextCamera]
            &&& has_state ==> key_actions(Key::BracketLeft, shift_held(keys), has_state, disable, stereo, flags)
                == seq![KeyAction::LoadPreviousSave, KeyAction::Info(Notice::PreviousNextSave), KeyAction::NextCamera]
        },
        !(keys.contains(Key::ShiftLeft) || keys.contains(Key::ShiftRight)) ==> {
            &&& key_actions(Key::Period, shift_held(keys), has_state, disable, stereo, flags).len() == 0
            &&& key_actions(Key::Comma, shift_held(keys), has_state, disable, stereo, flags).len() == 0
            &&& key_actions(Key::BracketRight, shift_held(keys), has_state, disable, stereo, flags).len() == 0
            &&& key_actions(Key::BracketLeft, shift_held(keys), has_state, disable, stereo, flags).len() == 0
        },
{
}

/// No key appears twice in `keys`.
pub open spec fn keys_distinct(keys: Seq<Key>) -> bool {
    forall|i: int, j: int| 0 <= i < j < keys.len() ==> keys[i] != keys[j]
}

/// Law: recording pressed keys as `process_keyboard` does never lists a
/// key twice.
pub proof fn pressed_keys_stay_distinct(keys: Seq<Key>, key: Key)
    requires
        keys_distinct(keys),
    ensures
        keys_distinct(if keys.contains(key) { keys } else { keys.push(key) }),
{
    if !keys.contains(key) {
        let after = keys.push(key);
        assert forall|i: int, j: int| 0 <= i < j < after.len() implies after[i] != after[j] by {
            if j == keys.len() {
                assert(after[i] == keys[i]);
            }
        }
    }
}

/// The keyboard state of the viewer.
pub struct KeyboardControl {
    /// Keys seen pressed, each once.
    pub pressed_keys: Vec<Key>,
    pub disable_controls: bool,
    pub cache_stereo: bool,
    pub mouse_on_ui: bool,
}

fn contains_key(keys: &Vec<Key>, key: Key) -> (b: bool)
    ensures
        b == keys@.contains(key),
{
    let mut i: usize = 0;
    while i < keys.len()
        invariant
            i <= keys.len(),
            forall|j: int| 0 <= j < i ==> keys@[j] != key,
        decreases keys.len() - i,
    {
        if keys[i] == key {
            return true;
        }
        i = i + 1;
    }
    false
}

impl KeyboardControl {
    pub fn new() -> (k: KeyboardControl)
        ensures
            k.pressed_keys@.len() == 0,
            !k.disable_controls,
            !k.cache_stereo,
            !k.mouse_on_ui,
    {
        KeyboardControl { pressed_keys: Vec::new(), disable_controls: false, cache_stereo: false, mouse_on_ui: false }
    }

    /// Handles a key event.  Releases, and presses while the pointer is over
    /// the user interface, change nothing.  A press records the key, flips
    /// the switch it controls and lists what the viewer must do;
    /// `flags` is `None` while there is no rendering state.
    pub fn process_keyboard(&mut self, key: Key, pressed: bool, flags: &mut Option<DisplayFlags>) -> (actions: Vec<KeyAction>)
        ensures
            final(self).mouse_on_ui == old(self).mouse_on_ui,
            !pressed || old(self).mouse_on_ui ==> {
                &&& final(self).pressed_keys@ == old(self).pressed_keys@
                &&& final(self).disable_controls == old(self).disable_controls
                &&& final(self).cache_stereo == old(self).cache_stereo
                &&& *final(flags) == *old(flags)
                &&& actions@.len() == 0
            },
            pressed && !old(self).mouse_on_ui ==> {
                &&& final(self).pressed_keys@ == if old(self).pressed_keys@.contains(key) {
                    old(self).pressed_keys@
                } else {
                    old(self).pressed_keys@.push(key)
                }
                &&& final(self).disable_controls == controls_after_press(old(self).disable_controls, key)
                &&& final(self).cache_stereo == stereo_after_press(old(self).cache_stereo, key, old(flags).is_some())
                &&& *final(flags) == flags_after(key, *old(flags))
                &&& actions@ == key_actions(
                    key,
                    shift_held(final(self).pressed_keys@),
                    old(flags).is_some(),
                    final(self).disable_controls,
                    final(self).cache_stereo,
                    *final(flags),
                )
            },
            pressed && !old(self).mouse_on_ui && (old(self).pressed_keys@.contains(Key::ShiftLeft)
                || old(self).pressed_keys@.contains(Key::ShiftRight)) ==> {
                &&& key == Key::Period ==> actions@ == seq![KeyAction::NextCamera]
                &&& key == Key::Comma ==> actions@ == seq![KeyAction::PreviousCamera]
            },
            pressed && !old(self).mouse_on_ui && old(flags).is_some() && (old(self).pressed_keys@.contains(
                Key::ShiftLeft,
            ) || old(self).pressed_keys@.contains(Key::ShiftRight)) ==> {
                &&& key == Key::BracketRight ==> actions@ == seq![
                    KeyAction::Info(Notice::LoadingNextSave),
                    KeyAction::LoadNextSave,
                    KeyAction::NextCamera,
                ]
                &&& key == Key::BracketLeft ==> actions@ == seq![
                    KeyAction::LoadPreviousSave,
                    KeyAction::Info(Notice::PreviousNextSave),
                    KeyAction::NextCamera,
                ]
            },
    {
        let mut actions: Vec<KeyAction> = Vec::new();
        if !pressed || self.mouse_on_ui {
            return actions;
        }
        if !contains_key(&self.pressed_keys, key) {
            self.pressed_keys.push(key);
        }
        proof {
            assert forall|x: Key| old(self).pressed_keys@.contains(x) implies self.pressed_keys@.contains(x) by {
                let w = choose|w: int| 0 <= w < old(self).pressed_keys@.len() && old(self).pressed_keys@[w] == x;
                assert(self.pressed_keys@[w] == x);
            }
        }
        let shift = contains_key(&self.pressed_keys, Key::ShiftLeft) || contains_key(&self.pressed_keys, Key::ShiftRight);
        let has_state = flags.is_some();
        match key {
            Key::Minus => {
                self.disable_controls = !self.disable_controls;
                if self.disable_controls {
                    actions.push(KeyAction::Info(Notice::ControlsDisabled));
                } else {
                    actions.push(KeyAction::Info(Notice::ControlsEnabled));
                }
            },
            Key::Backslash => {
                actions.push(KeyAction::Info(Notice::SavingScene));
                if has_state {
                    actions.push(KeyAction::SaveScene);
                }
            },
            Key::Enter => {
                actions.push(KeyAction::Info(Notice::SavingImage));
                if has_state {
                    actions.push(KeyAction::RequestScreenshot);
                }
            },
            Key::BracketRight => {
                if shift && has_state {
                    actions.push(KeyAction::Info(Notice::LoadingNextSave));
                    actions.push(KeyAction::LoadNextSave);
                    actions.push(KeyAction::NextCamera);
                }
            },
            Key::BracketLeft => {
                if shift && has_state {
                    actions.push(KeyAction::LoadPreviousSave);
                    actions.push(KeyAction::Info(Notice::PreviousNextSave));
                    actions.push(KeyAction::NextCamera);
                }
            },
            Key::Comma => {
                if shift {
                    actions.push(KeyAction::PreviousCamera);
                }
            },
            Key::Period => {
                if shift {
                    actions.push(KeyAction::NextCamera);
                }
            },
            Key::KeyP => {
                if has_state {
                    self.cache_stereo = !self.cache_stereo;
                    actions.push(KeyAction::LoadOutput { stereo: self.cache_stereo });
                }
            },
            Key::KeyM => {
                actions.push(KeyAction::UpdatePanelTexture);
                if let Some(f) = flags {
                    f.displaying_panel_textures = !f.displaying_panel_textures;
                    if f.displaying_panel_textures {
                        actions.push(KeyAction::Info(Notice::TexturesOnPanels));
                    } else {
                        actions.push(KeyAction::Info(Notice::PanelsTransparent));
                    }
                }
            },
            Key::KeyN => {
                if let Some(f) = flags {
                    f.distort_rays = !f.distort_rays;
                    if f.distort_rays {
                        actions.push(KeyAction::Info(Notice::NearestNeighbour));
                    } else {
                        actions.push(KeyAction::Info(Notice::NoNearestNeighbour));
                    }
                }
            },
            Key::KeyO => {
                actions.push(KeyAction::PrintCompute);
            },
            _ => {},
        }
        assert(actions@ =~= key_actions(
            key,
            shift_held(self.pressed_keys@),
            has_state,
            self.disable_controls,
            self.cache_stereo,
            *flags,
        ));
        actions
    }

    /// Finishes a `LoadOutput` action: when loading succeeded, reports which
    /// output is shown and asks for the panels to be updated; otherwise
    /// warns and switches back to the other output.
    pub fn after_load_output(&mut self, loaded: bool) -> (actions: Vec<KeyAction>)
        ensures
            final(self).pressed_keys@ == old(self).pressed_keys@,
            final(self).disable_controls == old(self).disable_controls,
            final(self).mouse_on_ui == old(self).mouse_on_ui,
            final(self).cache_stereo == stereo_after_load(old(self).cache_stereo, loaded),
            loaded ==> actions@ == seq![
                KeyAction::Info(
                    if old(self).cache_stereo {
                        Notice::DisplayingStereo
                    } else {
                        Notice::DisplayingSeparable
                    },
                ),
                KeyAction::UpdatePanels,
            ],
            !loaded ==> actions@ == seq![KeyAction::Warning(Notice::NoOutputInCache)],
    {
        let mut actions: Vec<KeyAction> = Vec::new();
        if loaded {
            if self.cache_stereo {
                actions.push(KeyAction::Info(Notice::DisplayingStereo));
            } else {
                actions.push(KeyAction::Info(Notice::DisplayingSeparable));
            }
            actions.push(KeyAction::UpdatePanels);
        } else {
            actions.push(KeyAction::Warning(Notice::NoOutputInCache));
            self.cache_stereo = !self.cache_stereo;
        }
        assert(actions@.len() == if loaded { 2int } else { 1int });
        proof {
            if loaded {
                assert(actions@ =~= seq![
                    KeyAction::Info(
                        if old(self).cache_stereo {
                            Notice::DisplayingStereo
                        } else {
                            Notice::DisplayingSeparable
                        },
                    ),
                    KeyAction::UpdatePanels,
                ]);
            } else {
                assert(actions@ =~= seq![KeyAction::Warning(Notice::NoOutputInCache)]);
            }
        }
        actions
    }
}

/// A direction the camera moves in.
#[derive(Clone, Copy, Debug, PartialEq, Eq, Structural)]
pub enum Movement {
    Forward,
    Backward,
    Left,
    Right,
    Up,
    Down,
}

/// The movement a key controls.
pub open spec fn movement_of(key: Key) -> Option<Movement> {
    match key {
        Key::KeyW => Some(Movement::Forward),
        Key::KeyS => Some(Movement::Backward),
        Key::KeyA => Some(Movement::Left),
        Key::KeyD => Some(Movement::Right),
        Key::Space => Some(Movement::Up),
        Key::CapsLock => Some(Movement::Down),
        _ => None,
    }
}

/// Law: exactly the six keys W, S, A, D, Space and CapsLock control a
/// movement (forward, backward, left, right, up, down); every other key,
/// the shift keys among them, controls none.
pub proof fn only_six_keys_move(key: Key)
    ensures
        movement_of(key) is Some <==> (key == Key::KeyW || key == Key::KeyS || key == Key::KeyA || key == Key::KeyD
            || key == Key::Space || key == Key::CapsLock),
        movement_of(Key::KeyW) == Some(Movement::Forward),
        movement_of(Key::KeyS) == Some(Movement::Backward),
        movement_of(Key::KeyA) == Some(Movement::Left),
        movement_of(Key::KeyD) == Some(Movement::Right),
        movement_of(Key::Space) == Some(Movement::Up),
        movement_of(Key::CapsLock) == Some(Movement::Down),
        movement_of(Key::ShiftLeft) is None,
        movement_of(Key::ShiftRight) is None,
{
}

/// The movement that `key` controls, if any, and whether that movement is
/// now on: a key that is pressed while the controls are enabled turns it
/// on, any other event turns it off.
pub fn movement_key(key: Key, pressed: bool, disabled: bool) -> (r: Option<(Movement, bool)>)
    ensures
        r == match movement_of(key) {
            Some(m) => Some((m, pressed && !disabled)),
            None => None,
        },
        r is Some <==> (key == Key::KeyW || key == Key::KeyS || key == Key::KeyA || key == Key::KeyD || key
            == Key::Space || key == Key::CapsLock),
        r matches Some(p) ==> p.1 == (pressed && !disabled),
        key == Key::KeyW ==> r == Some((Movement::Forward, pressed && !disabled)),
        key == Key::KeyS ==> r == Some((Movement::Backward, pressed && !disabled)),
        key == Key::KeyA ==> r == Some((Movement::Left, pressed && !disabled)),
        key == Key::KeyD ==> r == Some((Movement::Right, pressed && !disabled)),
        key == Key::Space ==> r == Some((Movement::Up, pressed && !disabled)),
        key == Key::CapsLock ==> r == Some((Movement::Down, pressed && !disabled)),
{
    let on = pressed && !disabled;
    match key {
        Key::KeyW => Some((Movement::Forward, on)),
        Key::KeyS => Some((Movement::Backward, on)),
        Key::KeyA => Some((Movement::Left, on)),
        Key::KeyD => Some((Movement::Right, on)),
        Key::Space => Some((Movement::Up, on)),
        Key::CapsLock => Some((Movement::Down, on)),
        _ => None,
    }
}

/// The requests that a factorizer's settings hold for the next redraw.
#[derive(Clone, Copy, Debug, PartialEq, Eq, Structural)]
pub struct SolverFlags {
    /// Sample the light field at the next redraw.
    pub will_sample: bool,
    /// Solve the factorization at the next redraw.
    pub will_solve: bool,
}

/// What a redraw does before rendering, in order.
#[derive(Clone, Copy, Debug, PartialEq, Eq, Structural)]
pub enum RedrawAction {
    /// Show an information notice.
    Info(Notice),
    /// Record the current camera in the camera history.
    SaveCameraPoint,
    /// Run the separable factorization.
    SolveSeparable,
    /// Run the stereo factorization.
    SolveStereo,
}

/// The actions that the requests of one factorizer ask for: a sample
/// records the camera, a solve runs `solve`.
pub open spec fn solver_actions(flags: SolverFlags, solve: RedrawAction) -> Seq<RedrawAction> {
    (if flags.will_sample {
        seq![RedrawAction::Info(Notice::SavedCamera), RedrawAction::SaveCameraPoint]
    } else {
        Seq::empty()
    }) + (if flags.will_solve {
        seq![solve]
    } else {
        Seq::empty()
    })
}

/// Law: a sample request is served alike for either factorizer: whenever
/// `will_sample` is set, the factorizer's actions start with the notice and
/// the recording of the camera, followed by its solve when one is
/// requested; the actions do not depend on which factorizer it is beyond
/// the solve they name.
pub proof fn sample_requests_record_camera(flags: SolverFlags, solve: RedrawAction)
    ensures
        flags.will_sample ==> solver_actions(flags, solve).len() >= 2 && solver_actions(flags, solve)[0]
            == RedrawAction::Info(Notice::SavedCamera) && solver_actions(flags, solve)[1] == RedrawAction::SaveCameraPoint,
        !flags.will_sample ==> solver_actions(flags, solve).len() == 0 || solver_actions(flags, solve) == seq![solve],
        flags.will_solve ==> solver_actions(flags, solve).last() == solve,
        solver_actions(flags, solve).len() == (if flags.will_sample { 2int } else { 0int }) + (if flags.will_solve {
            1int
        } else {
            0int
        }),
        solver_actions(flags, RedrawAction::SolveStereo).take(if flags.will_sample { 2int } else { 0int })
            == solver_actions(flags, RedrawAction::SolveSeparable).take(if flags.will_sample { 2int } else { 0int }),
{
    let a = solver_actions(flags, solve);
    let st = solver_actions(flags, RedrawAction::SolveStereo);
    let se = solver_actions(flags, RedrawAction::SolveSeparable);
    let n: int = if flags.will_sample { 2int } else { 0int };
    assert(st.take(n) =~= se.take(n));
    if !flags.will_sample && flags.will_solve {
        assert(a =~= seq![solve]);
    }
}

/// The requests of one factorizer at the start of a redraw: records the
/// camera if a sample is requested, then solves if a solve is requested,
/// and clears both requests; appends the actions and returns whether it
/// solved.
fn serve_requests(flags: &mut SolverFlags, solve: RedrawAction, actions: &mut Vec<RedrawAction>) -> (solved: bool)
    ensures
        final(actions)@ == old(actions)@ + solver_actions(*old(flags), solve),
        !final(flags).will_sample,
        !final(flags).will_solve,
        solved == old(flags).will_solve,
{
    let ghost before = actions@;
    if flags.will_sample {
        actions.push(RedrawAction::Info(Notice::SavedCamera));
        actions.push(RedrawAction::SaveCameraPoint);
        flags.will_sample = false;
    }
    let solved = flags.will_solve;
    if flags.will_solve {
        actions.push(solve);
        flags.will_solve = false;
    }
    assert(actions@ =~= before + solver_actions(*old(flags), solve));
    solved
}

/// The decisions of a redraw before rendering. A minimized window does
/// nothing. Otherwise the separable factorizer's requests are served, then
/// the stereo one's: a sample request records the camera, a solve request
/// runs that factorization and turns the panel textures on; every request
/// is cleared.
pub fn redraw_decisions(
    separable: &mut SolverFlags,
    stereo: &mut SolverFlags,
    displaying_panel_textures: &mut bool,
    minimized: bool,
) -> (actions: Vec<RedrawAction>)
    ensures
        minimized ==> {
            &&& *final(separable) == *old(separable)
            &&& *final(stereo) == *old(stereo)
            &&& *final(displaying_panel_textures) == *old(displaying_panel_textures)
            &&& actions@.len() == 0
        },
        !minimized ==> {
            &&& *final(separable) == (SolverFlags { will_sample: false, will_solve: false })
            &&& *final(stereo) == (SolverFlags { will_sample: false, will_solve: false })
            &&& *final(displaying_panel_textures) == (*old(displaying_panel_textures) || old(separable).will_solve
                || old(stereo).will_solve)
            &&& actions@ == solver_actions(*old(separable), RedrawAction::SolveSeparable) + solver_actions(
                *old(stereo),
                RedrawAction::SolveStereo,
            )
            &&& actions@ == (if old(separable).will_sample {
                seq![RedrawAction::Info(Notice::SavedCamera), RedrawAction::SaveCameraPoint]
            } else {
                Seq::empty()
            }) + (if old(separable).will_solve {
                seq![RedrawAction::SolveSeparable]
            } else {
                Seq::empty()
            }) + (if old(stereo).will_sample {
                seq![RedrawAction::Info(Notice::SavedCamera), RedrawAction::SaveCameraPoint]
            } else {
                Seq::empty()
            }) + (if old(stereo).will_solve {
                seq![RedrawAction::SolveStereo]
            } else {
                Seq::empty()
            })
        },
{
    let mut actions: Vec<RedrawAction> = Vec::new();
    if minimized {
        return actions;
    }
    if serve_requests(separable, RedrawAction::SolveSeparable, &mut actions) {
        *displaying_panel_textures = true;
    }
    if serve_requests(stereo, RedrawAction::SolveStereo, &mut actions) {
        *displaying_panel_textures = true;
    }
    assert(actions@ =~= solver_actions(*old(separable), RedrawAction::SolveSeparable) + solver_actions(
        *old(stereo),
        RedrawAction::SolveStereo,
    ));
    actions
}

} // verus!
