//! Keyboard input while flying: what a key press or release asks of the flying
//! screen, which flight-control keys are held, and the control deflections they give.

use vstd::prelude::*;

verus! {

/// The keys that move the flight controls.
#[derive(Clone, Copy, Debug, PartialEq, Eq, Structural)]
pub enum ControlKey {
    ArrowUp,
    ArrowDown,
    ArrowLeft,
    ArrowRight,
    KeyX,
    KeyZ,
    Equal,
    ShiftLeft,
    Minus,
    ControlLeft,
    KeyB,
}

/// A key, as the flying screen tells them apart.
#[derive(Clone, Copy, Debug, PartialEq, Eq, Structural)]
pub enum FlyingKey {
    Escape,
    F11,
    KeyC,
    KeyP,
    Control(ControlKey),
    /// Any other key.
    Other,
}

/// What a key event asks of the flying screen.
#[derive(Clone, Copy, Debug, PartialEq, Eq, Structural)]
pub enum KeyCommand {
    ReturnToMenu,
    ToggleFullscreen,
    /// Look straight ahead again.
    CenterView,
    /// Cycle which stars are drawn.
    CycleStars,
    /// A flight-control key went down.
    Hold(ControlKey),
    /// A flight-control key came up.
    Release(ControlKey),
    Ignore,
}

/// What a key press (`pressed`) or release asks: Escape returns to the menu, F11
/// toggles fullscreen, C centers the view, P cycles the stars; any other key is held
/// down for the flight controls, and every released key is let go.
pub fn key_command(key: FlyingKey, pressed: bool) -> (r: KeyCommand)
    ensures
        r == (if pressed {
            match key {
                FlyingKey::Escape => KeyCommand::ReturnToMenu,
                FlyingKey::F11 => KeyCommand::ToggleFullscreen,
                FlyingKey::KeyC => KeyCommand::CenterView,
                FlyingKey::KeyP => KeyCommand::CycleStars,
                FlyingKey::Control(k) => KeyCommand::Hold(k),
                FlyingKey::Other => KeyCommand::Ignore,
            }
        } else {
            match key {
                FlyingKey::Control(k) => KeyCommand::Release(k),
                _ => KeyCommand::Ignore,
            }
        }),
{
    if pressed {
        match key {
            FlyingKey::Escape => KeyCommand::ReturnToMenu,
            FlyingKey::F11 => KeyCommand::ToggleFullscreen,
            FlyingKey::KeyC => KeyCommand::CenterView,
            FlyingKey::KeyP => KeyCommand::CycleStars,
            FlyingKey::Control(k) => KeyCommand::Hold(k),
            FlyingKey::Other => KeyCommand::Ignore,
        }
    } else {
        match key {
            FlyingKey::Control(k) => KeyCommand::Release(k),
            _ => KeyCommand::Ignore,
        }
    }
}

/// The flight-control keys currently held, in the order they went down.
pub struct HeldKeys {
    keys: Vec<ControlKey>,
}

/// Control deflections from the held keys: each axis is -1, 0 or +1.
#[derive(Clone, Copy, Debug, PartialEq, Eq, Structural)]
pub struct ControlInput {
    /// Up arrow noses up (+1), down arrow noses down (-1).
    pub elevator: i8,
    /// Right arrow rolls right (+1), left arrow rolls left (-1).
    pub aileron: i8,
    /// X yaws right (+1), Z yaws left (-1).
    pub rudder: i8,
    /// `=` or left Shift held: throttle up.
    pub throttle_up: bool,
    /// `-` or left Ctrl held: throttle down.
    pub throttle_down: bool,
    /// B held: brakes on.
    pub brakes: bool,
}

/// +1 when only `pos` is held, -1 when only `neg` is, 0 otherwise.
pub open spec fn axis_of(pos: bool, neg: bool) -> int {
    (if pos { 1int } else { 0int }) - (if neg { 1int } else { 0int })
}

impl HeldKeys {
    /// The set of held keys.
    pub closed spec fn held(&self) -> Set<ControlKey> {
        self.keys@.to_set()
    }

    /// No key held twice.
    pub closed spec fn wf(&self) -> bool {
        self.keys@.no_duplicates()
    }

    /// No key held.
    pub fn new() -> (r: Self)
        ensures
            r.wf(),
            r.held() == Set::<ControlKey>::empty(),
    {
        let r = HeldKeys { keys: Vec::new() };
        proof {
            assert(r.keys@.to_set() =~= Set::<ControlKey>::empty());
        }
        r
    }

    /// Whether `key` is held.
    pub fn is_held(&self, key: ControlKey) -> (r: bool)
        ensures
            r == self.held().contains(key),
    {
        let mut i: usize = 0;
        while i < self.keys.len()
            invariant
                i <= self.keys@.len(),
                forall|j: int| 0 <= j < i ==> self.keys@[j] != key,
            decreases self.keys@.len() - i,
        {
            if self.keys[i] == key {
                proof {
                    assert(self.keys@.contains(key));
                }
                return true;
            }
            i = i + 1;
        }
        proof {
            assert(!self.keys@.contains(key));
        }
        false
    }

    /// `key` went down.
    pub fn key_down(&mut self, key: ControlKey)
        requires
            old(self).wf(),
        ensures
            final(self).wf(),
            final(self).held() == old(self).held().insert(key),
    {
        if !self.is_held(key) {
            let ghost before = self.keys@;
            self.keys.push(key);
            proof {
                assert(self.keys@.to_set() =~= before.to_set().insert(key)) by {
                    assert forall|k: ControlKey| self.keys@.contains(k) <==> before.contains(k) || k == key by {
                        if before.contains(k) {
                            let j = choose|j: int| 0 <= j < before.len() && before[j] == k;
                            assert(self.keys@[j] == k);
                        }
                        if k == key {
                            assert(self.keys@[before.len() as int] == k);
                        }
                    }
                }
            }
        } else {
            proof {
                assert(self.keys@.to_set() =~= self.keys@.to_set().insert(key));
            }
        }
    }

    /// `key` came up.
    pub fn key_up(&mut self, key: ControlKey)
        requires
            old(self).wf(),
        ensures
            final(self).wf(),
            final(self).held() == old(self).held().remove(key),
    {
        let ghost before = self.keys@;
        let mut i: usize = 0;
        while i < self.keys.len()
            invariant
                self.keys@ == before,
                before == old(self).keys@,
                before.no_duplicates(),
                i <= before.len(),
                forall|j: int| 0 <= j < i ==> before[j] != key,
            decreases before.len() - i,
        {
            if self.keys[i] == key {
                self.keys.remove(i);
                proof {
                    let after = self.keys@;
                    assert(after =~= before.remove(i as int));
                    assert forall|k: ControlKey| after.contains(k) <==> before.contains(k) && k != key by {
                        if after.contains(k) {
                            let j = choose|j: int| 0 <= j < after.len() && after[j] == k;
                            let j2 = if j < i { j } else { j + 1 };
                            assert(before[j2] == k);
                            assert(j2 != i);
                            assert(before[i as int] == key);
                            assert(before[j2] != before[i as int]);
                            assert(before.contains(k));
                        }
                        if before.contains(k) && k != key {
                            let j = choose|j: int| 0 <= j < before.len() && before[j] == k;
                            if j < i {
                                assert(after[j] == k);
                            } else {
                                assert(j != i);
                                assert(after[j - 1] == k);
                            }
                        }
                    }
                    assert(after.to_set() =~= before.to_set().remove(key));
                    assert(after.no_duplicates()) by {
                        assert forall|a: int, b: int| 0 <= a < after.len() && 0 <= b < after.len() && a != b
                            implies after[a] != after[b] by {
                            let a2 = if a < i { a } else { a + 1 };
                            let b2 = if b < i { b } else { b + 1 };
                            assert(after[a] == before[a2]);
                            assert(after[b] == before[b2]);
                        }
                    }
                }
                return;
            }
            i = i + 1;
        }
        proof {
            assert(!before.contains(key));
            assert(before.to_set() =~= before.to_set().remove(key));
        }
    }

    /// The control deflections the held keys give.
    pub fn control_input(&self) -> (r: ControlInput)
        ensures
            r.elevator == axis_of(
                self.held().contains(ControlKey::ArrowUp),
                self.held().contains(ControlKey::ArrowDown),
            ),
            r.aileron == axis_of(
                self.held().contains(ControlKey::ArrowRight),
                self.held().contains(ControlKey::ArrowLeft),
            ),
            r.rudder == axis_of(self.held().contains(ControlKey::KeyX), self.held().contains(ControlKey::KeyZ)),
            r.throttle_up == (self.held().contains(ControlKey::Equal) || self.held().contains(
                ControlKey::ShiftLeft,
            )),
            r.throttle_down == (self.held().contains(ControlKey::Minus) || self.held().contains(
                ControlKey::ControlLeft,
            )),
            r.brakes == self.held().contains(ControlKey::KeyB),
    {
        ControlInput {
            elevator: key_axis(self.is_held(ControlKey::ArrowUp), self.is_held(ControlKey::ArrowDown)),
            aileron: key_axis(self.is_held(ControlKey::ArrowRight), self.is_held(ControlKey::ArrowLeft)),
            rudder: key_axis(self.is_held(ControlKey::KeyX), self.is_held(ControlKey::KeyZ)),
            throttle_up: self.is_held(ControlKey::Equal) || self.is_held(ControlKey::ShiftLeft),
            throttle_down: self.is_held(ControlKey::Minus) || self.is_held(ControlKey::ControlLeft),
            brakes: self.is_held(ControlKey::KeyB),
        }
    }
}

/// +1 when only the positive key is held, -1 when only the negative one is, 0 when
/// both or neither are.
pub fn key_axis(pos: bool, neg: bool) -> (r: i8)
    ensures
        r == axis_of(pos, neg),
{
    let p: i8 = if pos { 1 } else { 0 };
    let n: i8 = if neg { 1 } else { 0 };
    p - n
}

/// Pressing a key that was not held and letting it go again leaves the held keys as
/// they were: `after_down` is what `key_down(key)` makes of `before` and `after_up`
/// what `key_up(key)` makes of `after_down`.
pub proof fn press_release_restores(
    before: HeldKeys,
    after_down: HeldKeys,
    after_up: HeldKeys,
    key: ControlKey,
)
    requires
        !before.held().contains(key),
        after_down.held() == before.held().insert(key),
        after_up.held() == after_down.held().remove(key),
    ensures
        after_up.held() == before.held(),
{
    assert(before.held().insert(key).remove(key) =~= before.held());
}

} // verus!
