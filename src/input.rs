//! Keyboard and mouse button state, tracked from raw press and release events.
//!
//! Besides what is held, the state records what went down and what went up
//! during the current frame; those edge sets are cleared once per frame by
//! `update`.
use vstd::prelude::*;

verus! {

/// A physical key, named by its position on a US keyboard.
#[derive(Clone, Copy, Debug, PartialEq, Eq, Hash, Structural)]
pub enum Key {
    Backquote,
    Backslash,
    BracketLeft,
    BracketRight,
    Comma,
    Digit0,
    Digit1,
    Digit2,
    Digit3,
    Digit4,
    Digit5,
    Digit6,
    Digit7,
    Digit8,
    Digit9,
    Equal,
    IntlBackslash,
    IntlRo,
    IntlYen,
    KeyA,
    KeyB,
    KeyC,
    KeyD,
    KeyE,
    KeyF,
    KeyG,
    KeyH,
    KeyI,
    KeyJ,
    KeyK,
    KeyL,
    KeyM,
    KeyN,
    KeyO,
    KeyP,
    KeyQ,
    KeyR,
    KeyS,
    KeyT,
    KeyU,
    KeyV,
    KeyW,
    KeyX,
    KeyY,
    KeyZ,
    Minus,
    Period,
    Quote,
    Semicolon,
    Slash,
    AltLeft,
    AltRight,
    Backspace,
    CapsLock,
    ContextMenu,
    ControlLeft,
    ControlRight,
    Enter,
    SuperLeft,
    SuperRight,
    ShiftLeft,
    ShiftRight,
    Space,
    Tab,
    Convert,
    KanaMode,
    Lang1,
    Lang2,
    Lang3,
    Lang4,
    Lang5,
    NonConvert,
    Delete,
    End,
    Help,
    Home,
    Insert,
    PageDown,
    PageUp,
    ArrowDown,
    ArrowLeft,
    ArrowRight,
    ArrowUp,
    NumLock,
    Numpad0,
    Numpad1,
    Numpad2,
    Numpad3,
    Numpad4,
    Numpad5,
    Numpad6,
    Numpad7,
    Numpad8,
    Numpad9,
    NumpadAdd,
    NumpadBackspace,
    NumpadClear,
    NumpadClearEntry,
    NumpadComma,
    NumpadDecimal,
    NumpadDivide,
    NumpadEnter,
    NumpadEqual,
    NumpadHash,
    NumpadMemoryAdd,
    NumpadMemoryClear,
    NumpadMemoryRecall,
    NumpadMemoryStore,
    NumpadMemorySubtract,
    NumpadMultiply,
    NumpadParenLeft,
    NumpadParenRight,
    NumpadStar,
    NumpadSubtract,
    Escape,
    Fn,
    FnLock,
    PrintScreen,
    ScrollLock,
    Pause,
    BrowserBack,
    BrowserFavorites,
    BrowserForward,
    BrowserHome,
    BrowserRefresh,
    BrowserSearch,
    BrowserStop,
    Eject,
    LaunchApp1,
    LaunchApp2,
    LaunchMail,
    MediaPlayPause,
    MediaSelect,
    MediaStop,
    MediaTrackNext,
    MediaTrackPrevious,
    Power,
    Sleep,
    AudioVolumeDown,
    AudioVolumeMute,
    AudioVolumeUp,
    WakeUp,
    Meta,
    Hyper,
    Turbo,
    Abort,
    Resume,
    Suspend,
    Again,
    Copy,
    Cut,
    Find,
    Open,
    Paste,
    Props,
    Select,
    Undo,
    Hiragana,
    Katakana,
    F1,
    F2,
    F3,
    F4,
    F5,
    F6,
    F7,
    F8,
    F9,
    F10,
    F11,
    F12,
    F13,
    F14,
    F15,
    F16,
    F17,
    F18,
    F19,
    F20,
    F21,
    F22,
    F23,
    F24,
    F25,
    F26,
    F27,
    F28,
    F29,
    F30,
    F31,
    F32,
    F33,
    F34,
    F35,
}

/// A mouse button.
#[derive(Clone, Copy, Debug, PartialEq, Eq, Hash, Structural)]
pub enum MouseButton {
    Left,
    Right,
    Middle,
    Back,
    Forward,
    Other(u16),
}

/// Whether a key or button went down or up.
#[derive(Clone, Copy, Debug, PartialEq, Eq, Hash, Structural)]
pub enum ElementState {
    Pressed,
    Released,
}

/// Anything that can be held down: a key or a mouse button.
#[derive(Clone, Copy, Debug, PartialEq, Eq, Hash, Structural)]
pub enum Button {
    Key(Key),
    Mouse(MouseButton),
}

/// A finite set of buttons, kept as a vector without repeats. (A `HashSet`
/// is specified by vstd only for key types known to hash deterministically,
/// which a type of this crate cannot be shown to do.)
struct ButtonSet {
    items: Vec<Button>,
}

impl ButtonSet {
    spec fn wf(&self) -> bool {
        self.items@.no_duplicates()
    }

    spec fn set(&self) -> Set<Button> {
        self.items@.to_set()
    }

    fn new() -> (r: Self)
        ensures
            r.wf(),
            r.set() == Set::<Button>::empty(),
    {
        let r = ButtonSet { items: Vec::new() };
        assert(r.set() =~= Set::<Button>::empty());
        r
    }

    fn find(&self, b: Button) -> (r: Option<usize>)
        ensures
            match r {
                Some(i) => i < self.items.len() && self.items@[i as int] == b,
                None => !self.set().contains(b),
            },
    {
        let mut i: usize = 0;
        while i < self.items.len()
            invariant
                i <= self.items.len(),
                forall|j: int| 0 <= j < i ==> self.items@[j] != b,
            decreases self.items.len() - i,
        {
            if self.items[i] == b {
                return Some(i);
            }
            i = i + 1;
        }
        None
    }

    fn contains(&self, b: Button) -> (r: bool)
        ensures
            r == self.set().contains(b),
    {
        match self.find(b) {
            Some(i) => {
                assert(self.items@[i as int] == b);
                true
            },
            None => false,
        }
    }

    fn insert(&mut self, b: Button)
        requires
            old(self).wf(),
        ensures
            final(self).wf(),
            final(self).set() == old(self).set().insert(b),
    {
        if !self.contains(b) {
            self.items.push(b);
            proof {
                assert forall|x: Button| #[trigger] self.set().contains(x) == old(self).set().insert(b).contains(x) by {
                    if x != b && self.set().contains(x) {
                        let j = choose|j: int| 0 <= j < self.items@.len() && self.items@[j] == x;
                        assert(old(self).items@[j] == x);
                    }
                    if old(self).set().contains(x) {
                        let j = choose|j: int| 0 <= j < old(self).items@.len() && old(self).items@[j] == x;
                        assert(self.items@[j] == x);
                    }
                    if x == b {
                        assert(self.items@[self.items@.len() - 1] == b);
                    }
                }
                assert(self.set() =~= old(self).set().insert(b));
            }
        } else {
            assert(self.set() =~= old(self).set().insert(b));
        }
    }

    fn remove(&mut self, b: Button)
        requires
            old(self).wf(),
        ensures
            final(self).wf(),
            final(self).set() == old(self).set().remove(b),
    {
        match self.find(b) {
            Some(i) => {
                let ghost s = self.items@;
                self.items.remove(i);
                proof {
                    let r = self.items@;
                    assert(r == s.remove(i as int));
                    assert forall|a: int, c: int| 0 <= a < r.len() && 0 <= c < r.len() && a != c implies r[a] != r[c] by {
                        let a2 = if a < i { a } else { a + 1 };
                        let c2 = if c < i { c } else { c + 1 };
                        assert(r[a] == s[a2]);
                        assert(r[c] == s[c2]);
                    }
                    assert forall|x: Button| #[trigger] self.set().contains(x) == old(self).set().remove(b).contains(x) by {
                        if self.set().contains(x) {
                            let j = choose|j: int| 0 <= j < r.len() && r[j] == x;
                            let j2 = if j < i { j } else { j + 1 };
                            assert(s[j2] == x);
                            assert(j2 != i);
                        }
                        if old(self).set().contains(x) && x != b {
                            let j = choose|j: int| 0 <= j < s.len() && s[j] == x;
                            assert(j != i);
                            let j2 = if j < i { j } else { j - 1 };
                            assert(r[j2] == x);
                        }
                    }
                    assert(self.set() =~= old(self).set().remove(b));
                }
            },
            None => {
                assert(self.set() =~= old(self).set().remove(b));
            },
        }
    }

    fn clear(&mut self)
        ensures
            final(self).wf(),
            final(self).set() == Set::<Button>::empty(),
    {
        self.items.clear();
        assert(self.set() =~= Set::<Button>::empty());
    }
}

/// What the input state is, as far as its users can tell.
pub struct InputView {
    /// Buttons held down now.
    pub pressed: Set<Button>,
    /// Buttons that went down during this frame, having been up.
    pub just_pressed: Set<Button>,
    /// Buttons for which a release arrived during this frame.
    pub just_released: Set<Button>,
}

impl InputView {
    /// Nothing held, nothing went down or up.
    pub open spec fn empty() -> Self {
        InputView { pressed: Set::empty(), just_pressed: Set::empty(), just_released: Set::empty() }
    }

    /// The state after a press of `b`.
    pub open spec fn press(self, b: Button) -> Self {
        InputView {
            pressed: self.pressed.insert(b),
            just_pressed: if self.pressed.contains(b) {
                self.just_pressed
            } else {
                self.just_pressed.insert(b)
            },
            just_released: self.just_released,
        }
    }

    /// The state after a release of `b`, whether or not `b` was seen pressed.
    pub open spec fn release(self, b: Button) -> Self {
        InputView {
            pressed: self.pressed.remove(b),
            just_pressed: self.just_pressed,
            just_released: self.just_released.insert(b),
        }
    }

    /// The state after an event for `b`.
    pub open spec fn event(self, b: Button, state: ElementState) -> Self {
        match state {
            ElementState::Pressed => self.press(b),
            ElementState::Released => self.release(b),
        }
    }

    /// The state at the start of the next frame: the edge sets are empty.
    pub open spec fn next_frame(self) -> Self {
        InputView { pressed: self.pressed, just_pressed: Set::empty(), just_released: Set::empty() }
    }

    pub open spec fn holds(self, k: Key) -> bool {
        self.pressed.contains(Button::Key(k))
    }

    /// The signed unit value of an axis from its negative and positive keys.
    pub open spec fn axis(self, neg1: Key, neg2: Key, pos1: Key, pos2: Key) -> int {
        (if self.holds(pos1) || self.holds(pos2) { 1int } else { 0int }) - (if self.holds(neg1)
            || self.holds(neg2) {
            1int
        } else {
            0int
        })
    }
}

/// Keyboard and mouse button state for one frame.
pub struct InputManager {
    pressed: ButtonSet,
    just_pressed: ButtonSet,
    just_released: ButtonSet,
}

impl View for InputManager {
    type V = InputView;

    closed spec fn view(&self) -> InputView {
        InputView {
            pressed: self.pressed.set(),
            just_pressed: self.just_pressed.set(),
            just_released: self.just_released.set(),
        }
    }
}

impl InputManager {
    /// The manager's internal consistency, which all its methods keep.
    pub closed spec fn wf(&self) -> bool {
        self.pressed.wf() && self.just_pressed.wf() && self.just_released.wf()
    }

    pub fn new() -> (r: Self)
        ensures
            r.wf(),
            r@ == InputView::empty(),
    {
        InputManager {
            pressed: ButtonSet::new(),
            just_pressed: ButtonSet::new(),
            just_released: ButtonSet::new(),
        }
    }

    /// Ends the frame: clears what went down and up during it.
    pub fn update(&mut self)
        requires
            old(self).wf(),
        ensures
            final(self).wf(),
            final(self)@ == old(self)@.next_frame(),
    {
        self.just_pressed.clear();
        self.just_released.clear();
    }

    /// Applies a press or release of `b`.
    pub fn handle_button(&mut self, b: Button, state: ElementState)
        requires
            old(self).wf(),
        ensures
            final(self).wf(),
            final(self)@ == old(self)@.event(b, state),
    {
        match state {
            ElementState::Pressed => {
                if !self.pressed.contains(b) {
                    self.just_pressed.insert(b);
                }
                self.pressed.insert(b);
            },
            ElementState::Released => {
                self.pressed.remove(b);
                self.just_released.insert(b);
            },
        }
    }

    pub fn handle_keyboard_input(&mut self, key: Key, state: ElementState)
        requires
            old(self).wf(),
        ensures
            final(self).wf(),
            final(self)@ == old(self)@.event(Button::Key(key), state),
    {
        self.handle_button(Button::Key(key), state)
    }

    pub fn handle_mouse_button(&mut self, button: MouseButton, state: ElementState)
        requires
            old(self).wf(),
        ensures
            final(self).wf(),
            final(self)@ == old(self)@.event(Button::Mouse(button), state),
    {
        self.handle_button(Button::Mouse(button), state)
    }

    pub fn key_pressed(&self, key: Key) -> (r: bool)
        ensures
            r == self@.pressed.contains(Button::Key(key)),
    {
        self.pressed.contains(Button::Key(key))
    }

    pub fn key_just_pressed(&self, key: Key) -> (r: bool)
        ensures
            r == self@.just_pressed.contains(Button::Key(key)),
    {
        self.just_pressed.contains(Button::Key(key))
    }

    pub fn key_just_released(&self, key: Key) -> (r: bool)
        ensures
            r == self@.just_released.contains(Button::Key(key)),
    {
        self.just_released.contains(Button::Key(key))
    }

    pub fn mouse_button_pressed(&self, button: MouseButton) -> (r: bool)
        ensures
            r == self@.pressed.contains(Button::Mouse(button)),
    {
        self.pressed.contains(Button::Mouse(button))
    }

    pub fn mouse_button_just_pressed(&self, button: MouseButton) -> (r: bool)
        ensures
            r == self@.just_pressed.contains(Button::Mouse(button)),
    {
        self.just_pressed.contains(Button::Mouse(button))
    }

    pub fn mouse_button_just_released(&self, button: MouseButton) -> (r: bool)
        ensures
            r == self@.just_released.contains(Button::Mouse(button)),
    {
        self.just_released.contains(Button::Mouse(button))
    }

    /// -1, 0 or 1 from the held keys of one axis; opposite keys cancel.
    fn axis(&self, neg1: Key, neg2: Key, pos1: Key, pos2: Key) -> (r: i8)
        ensures
            r == self@.axis(neg1, neg2, pos1, pos2),
    {
        let mut value: i8 = 0;
        if self.key_pressed(neg1) || self.key_pressed(neg2) {
            value = value - 1;
        }
        if self.key_pressed(pos1) || self.key_pressed(pos2) {
            value = value + 1;
        }
        value
    }

    /// Horizontal axis: -1 for Left or A, +1 for Right or D, both cancel.
    pub fn axis_horizontal(&self) -> (r: i8)
        ensures
            r == self@.axis(Key::ArrowLeft, Key::KeyA, Key::ArrowRight, Key::KeyD),
    {
        self.axis(Key::ArrowLeft, Key::KeyA, Key::ArrowRight, Key::KeyD)
    }

    /// Vertical axis: -1 for Down or S, +1 for Up or W, both cancel.
    pub fn axis_vertical(&self) -> (r: i8)
        ensures
            r == self@.axis(Key::ArrowDown, Key::KeyS, Key::ArrowUp, Key::KeyW),
    {
        self.axis(Key::ArrowDown, Key::KeyS, Key::ArrowUp, Key::KeyW)
    }
}

impl Default for InputManager {
    fn default() -> (r: Self)
        ensures
            r.wf(),
            r@ == InputView::empty(),
    {
        InputManager::new()
    }
}

/// Two presses of a button that was up, with no frame boundary between them,
/// leave it just pressed; after the frame ends it is still held but no longer
/// just pressed.
pub proof fn lemma_press_twice(s: InputView, b: Button)
    requires
        !s.pressed.contains(b),
    ensures
        s.press(b).press(b).just_pressed.contains(b),
        s.press(b).press(b).pressed.contains(b),
        !s.press(b).press(b).next_frame().just_pressed.contains(b),
        s.press(b).press(b).next_frame().pressed.contains(b),
{
}

/// Within a frame, no event takes a button out of the just-pressed set.
pub proof fn lemma_just_pressed_kept(s: InputView, b: Button, other: Button, state: ElementState)
    requires
        s.just_pressed.contains(b),
    ensures
        s.event(other, state).just_pressed.contains(b),
{
}

/// The state after the events `evs`, in turn, within one frame.
pub open spec fn events_after(s: InputView, evs: Seq<(Button, ElementState)>) -> InputView
    decreases evs.len(),
{
    if evs.len() == 0 {
        s
    } else {
        events_after(s.event(evs[0].0, evs[0].1), evs.drop_first())
    }
}

/// A button stays just pressed through any events of the same frame, its
/// own release included, until the frame ends.
pub proof fn lemma_just_pressed_until_update(s: InputView, b: Button, evs: Seq<(Button, ElementState)>)
    requires
        s.just_pressed.contains(b),
    ensures
        events_after(s, evs).just_pressed.contains(b),
        !events_after(s, evs).next_frame().just_pressed.contains(b),
    decreases evs.len(),
{
    if evs.len() > 0 {
        lemma_just_pressed_until_update(s.event(evs[0].0, evs[0].1), b, evs.drop_first());
    }
}

/// A release counts as just released even for a button never seen pressed.
pub proof fn lemma_release_unseen(s: InputView, b: Button)
    ensures
        s.release(b).just_released.contains(b),
        !s.release(b).pressed.contains(b),
{
}

} // verus!
