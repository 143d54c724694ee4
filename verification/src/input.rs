use vstd::prelude::*;

verus! {

/// A key of the terminal keyboard, as far as the game tells keys apart.
#[derive(Clone, Copy, Debug, PartialEq, Eq, Structural)]
pub enum KeyCode {
    Up,
    Down,
    Left,
    Right,
    Enter,
    Esc,
    Char(char),
    /// Any key that no rule of the game reads.
    Other,
}

/// What happened to a key in one terminal event.
#[derive(Clone, Copy, Debug, PartialEq, Eq, Structural)]
pub enum KeyEventKind {
    Press,
    Repeat,
    Release,
}

/// One key event of the terminal.
#[derive(Clone, Copy, Debug, PartialEq, Eq, Structural)]
pub struct KeyEvent {
    pub code: KeyCode,
    pub kind: KeyEventKind,
}

/// The keys pressed in the events of a frame, in the order in which they came.
pub open spec fn pressed_codes(events: Seq<KeyEvent>) -> Seq<KeyCode>
    decreases events.len(),
{
    if events.len() == 0 {
        Seq::empty()
    } else {
        let rest = pressed_codes(events.drop_last());
        if events.last().kind == KeyEventKind::Press {
            rest.push(events.last().code)
        } else {
            rest
        }
    }
}

/// The keys pressed during the current frame.
pub struct InputState {
    pressed: Vec<KeyCode>,
}

impl View for InputState {
    type V = Set<KeyCode>;

    closed spec fn view(&self) -> Set<KeyCode> {
        self.pressed@.to_set()
    }
}

impl InputState {
    /// An input state in which no key is pressed.
    pub fn new() -> (s: InputState)
        ensures
            s@ == Set::<KeyCode>::empty(),
    {
        let s = InputState { pressed: Vec::new() };
        proof {
            assert(s.pressed@.to_set() =~= Set::<KeyCode>::empty());
        }
        s
    }

    /// Whether `key` was pressed during the current frame.
    pub fn just_pressed(&self, key: KeyCode) -> (b: bool)
        ensures
            b == self@.contains(key),
    {
        let mut i: usize = 0;
        while i < self.pressed.len()
            invariant
                0 <= i <= self.pressed.len(),
                forall|j: int| 0 <= j < i ==> self.pressed@[j] != key,
            decreases self.pressed.len() - i,
        {
            if self.pressed[i] == key {
                proof {
                    assert(self.pressed@.to_set().contains(self.pressed@[i as int]));
                }
                return true;
            }
            i = i + 1;
        }
        proof {
            if self.pressed@.to_set().contains(key) {
                let k = choose|k: int| 0 <= k < self.pressed@.len() && self.pressed@[k] == key;
                assert(self.pressed@[k] == key);
            }
        }
        false
    }

    /// Starts a new frame: forgets the keys of the last frame and records the
    /// keys pressed in `events`; repeats and releases are ignored.
    pub fn update(&mut self, events: &Vec<KeyEvent>)
        ensures
            final(self)@ == pressed_codes(events@).to_set(),
    {
        self.pressed.clear();
        let mut i: usize = 0;
        while i < events.len()
            invariant
                0 <= i <= events.len(),
                self.pressed@ == pressed_codes(events@.take(i as int)),
            decreases events.len() - i,
        {
            proof {
                assert(events@.take(i + 1).drop_last() =~= events@.take(i as int));
            }
            if events[i].kind == KeyEventKind::Press {
                self.pressed.push(events[i].code);
            }
            i = i + 1;
        }
        proof {
            assert(events@.take(events@.len() as int) =~= events@);
        }
    }
}

/// The codes of the key presses among `events`, in order: the keys that a menu
/// reacts to in one frame.
pub fn read_key_presses(events: &Vec<KeyEvent>) -> (codes: Vec<KeyCode>)
    ensures
        codes@ == pressed_codes(events@),
{
    let mut codes: Vec<KeyCode> = Vec::new();
    let mut i: usize = 0;
    while i < events.len()
        invariant
            0 <= i <= events.len(),
            codes@ == pressed_codes(events@.take(i as int)),
        decreases events.len() - i,
    {
        proof {
            assert(events@.take(i + 1).drop_last() =~= events@.take(i as int));
        }
        if events[i].kind == KeyEventKind::Press {
            codes.push(events[i].code);
        }
        i = i + 1;
    }
    proof {
        assert(events@.take(events@.len() as int) =~= events@);
    }
    codes
}

/// Whether the jump key (Up) was pressed or held in `events`.
pub fn jump_pressed(events: &Vec<KeyEvent>) -> (b: bool)
    ensures
        b == exists|i: int|
            0 <= i < events@.len() && (events@[i].kind == KeyEventKind::Press
                || events@[i].kind == KeyEventKind::Repeat) && events@[i].code == KeyCode::Up,
{
    let mut i: usize = 0;
    while i < events.len()
        invariant
            0 <= i <= events.len(),
            forall|j: int|
                0 <= j < i ==> !((events@[j].kind == KeyEventKind::Press || events@[j].kind
                    == KeyEventKind::Repeat) && events@[j].code == KeyCode::Up),
        decreases events.len() - i,
    {
        let e = events[i];
        if (e.kind == KeyEventKind::Press || e.kind == KeyEventKind::Repeat) && e.code
            == KeyCode::Up {
            return true;
        }
        i = i + 1;
    }
    false
}


impl Default for InputState {
    /// No key is pressed.
    fn default() -> (s: InputState)
        ensures
            s@ == Set::<KeyCode>::empty(),
    {
        InputState::new()
    }
}

} // verus!
