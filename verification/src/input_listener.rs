//! Keyboard and mouse triggers.
use vstd::prelude::*;

verus! {

/// What the triggers and the recogniser report to the dictation loop.
pub enum InputEvent {
    /// The dictation trigger was clicked.
    Click,
    /// The skill trigger went down.
    StartSkill,
    /// The skill trigger was let go.
    StopSkill,
    /// The double-click window after the recording `session_id` has closed.
    DictationFinalizeWindowElapsed { session_id: u64 },
    /// The transcript of the recording `session_id` has come in.
    DictationAsrFinished { session_id: u64, result: Result<String, String> },
}

/// A trigger that is down for so long is held, in milliseconds.
pub const HOLD_THRESHOLD_MS: u64 = 350;

// ---------------------------------------------------------------------------
// A trigger
// ---------------------------------------------------------------------------

/// A trigger that tells a click from being held.
#[derive(Clone, Copy, Debug, PartialEq, Eq, Structural)]
pub struct HoldTrigger {
    /// Whether it is down.
    pub pressed: bool,
    /// Whether it has been found to be held.
    pub skill_active: bool,
    /// Counts the presses, so that a timer of an earlier one is told apart.
    pub generation: u64,
}

/// The number after `n`, beginning again after the greatest.
pub open spec fn next_generation(n: u64) -> u64 {
    if n == u64::MAX {
        0
    } else {
        (n + 1) as u64
    }
}

/// The trigger after it went down. It goes down repeatedly while it is down.
pub open spec fn after_press(t: HoldTrigger) -> HoldTrigger {
    if t.pressed {
        t
    } else {
        HoldTrigger {
            pressed: true,
            skill_active: false,
            generation: next_generation(t.generation),
        }
    }
}

/// Whether the timer of a press finds the trigger held.
pub open spec fn is_held(t: HoldTrigger, generation: u64) -> bool {
    t.generation == generation && t.pressed && !t.skill_active
}

/// The trigger after the timer of a press has run off.
pub open spec fn after_timer(t: HoldTrigger, generation: u64) -> HoldTrigger {
    if is_held(t, generation) {
        HoldTrigger { skill_active: true, ..t }
    } else {
        t
    }
}

/// The trigger after it was let go.
pub open spec fn after_release(t: HoldTrigger) -> HoldTrigger {
    if t.pressed {
        HoldTrigger { pressed: false, skill_active: false, ..t }
    } else {
        t
    }
}

impl HoldTrigger {
    pub fn new() -> (r: Self)
        ensures
            r == (HoldTrigger { pressed: false, skill_active: false, generation: 0 }),
    {
        HoldTrigger { pressed: false, skill_active: false, generation: 0 }
    }

    /// The trigger goes down. Gives the generation for which a timer is to be started.
    pub fn on_press(&mut self) -> (r: Option<u64>)
        ensures
            *final(self) == after_press(*old(self)),
            r == (if old(self).pressed {
                None
            } else {
                Some(next_generation(old(self).generation))
            }),
    {
        if self.pressed {
            return None;
        }
        self.pressed = true;
        self.skill_active = false;
        self.generation = if self.generation == u64::MAX {
            0
        } else {
            self.generation + 1
        };
        Some(self.generation)
    }

    /// The timer of the press `generation` has run off.
    pub fn hold_elapsed(&mut self, generation: u64) -> (r: Option<InputEvent>)
        ensures
            *final(self) == after_timer(*old(self), generation),
            r == (if is_held(*old(self), generation) {
                Some(InputEvent::StartSkill)
            } else {
                None
            }),
    {
        if self.generation == generation && self.pressed && !self.skill_active {
            self.skill_active = true;
            Some(InputEvent::StartSkill)
        } else {
            None
        }
    }

    /// The trigger is let go.
    pub fn on_release(&mut self) -> (r: Option<InputEvent>)
        ensures
            *final(self) == after_release(*old(self)),
            r == (if !old(self).pressed {
                None
            } else if old(self).skill_active {
                Some(InputEvent::StopSkill)
            } else {
                Some(InputEvent::Click)
            }),
    {
        if !self.pressed {
            return None;
        }
        self.pressed = false;
        if self.skill_active {
            self.skill_active = false;
            Some(InputEvent::StopSkill)
        } else {
            Some(InputEvent::Click)
        }
    }
}

/// A trigger that is let go before its timer runs off was clicked, and the timer then finds
/// nothing, whether or not the trigger is down again.
pub proof fn law_short_press_is_a_click(t: HoldTrigger)
    requires
        !t.pressed,
    ensures
        ({
            let down = after_press(t);
            let up = after_release(down);
            &&& down.pressed && !down.skill_active
            &&& !is_held(up, down.generation)
            &&& !is_held(after_press(up), down.generation)
            &&& after_timer(up, down.generation) == up
        }),
{
}

/// A trigger that is held starts a skill once, and stops it when it is let go; that it goes
/// down repeatedly meanwhile makes no difference.
pub proof fn law_long_press_is_a_skill(t: HoldTrigger)
    requires
        !t.pressed,
    ensures
        ({
            let down = after_press(t);
            let held = after_timer(down, down.generation);
            &&& is_held(down, down.generation)
            &&& held.pressed && held.skill_active
            &&& !is_held(held, down.generation)
            &&& after_press(held) == held
            &&& !after_release(held).pressed
            &&& !after_release(held).skill_active
        }),
{
}

// ---------------------------------------------------------------------------
// The listener
// ---------------------------------------------------------------------------

/// Which triggers are listened to.
#[derive(Clone, Copy, Debug, PartialEq, Eq, Structural)]
pub struct InputListener {
    pub enable_mouse: bool,
    pub enable_alt: bool,
}

impl InputListener {
    pub fn new() -> (r: Self)
        ensures
            r == (InputListener { enable_mouse: true, enable_alt: true }),
    {
        InputListener { enable_mouse: true, enable_alt: true }
    }
}

/// What comes in from the devices.
#[derive(Clone, Copy, Debug, PartialEq, Eq, Structural)]
pub enum RawInput {
    /// A mouse, with the changes of its buttons.
    Mouse { flags: u16 },
    /// A keyboard, with the code of the key and what happens to it.
    Keyboard { vkey: u16, flags: u16 },
    Other,
}

/// The two triggers.
#[derive(Clone, Copy, Debug, PartialEq, Eq, Structural)]
pub enum Trigger {
    MiddleButton,
    RightAlt,
}

/// What an input means to the triggers.
#[derive(Clone, Copy, Debug, PartialEq, Eq, Structural)]
pub enum Meaning {
    Nothing,
    Press(Trigger),
    Release(Trigger),
}

pub const RI_KEY_BREAK: u16 = 1;

pub const RI_KEY_E0: u16 = 2;

pub const RI_MOUSE_MIDDLE_BUTTON_DOWN: u16 = 0x0010;

pub const RI_MOUSE_MIDDLE_BUTTON_UP: u16 = 0x0020;

pub const VK_MENU: u16 = 0x12;

pub const VK_RMENU: u16 = 0xa5;

/// The key is the right Alt key: it has a code of its own, or that of Alt and the mark of
/// the right-hand side.
pub open spec fn is_right_alt(vkey: u16, flags: u16) -> bool {
    vkey == VK_RMENU || (vkey == VK_MENU && flags & RI_KEY_E0 != 0)
}

/// What an input means, where only some triggers are listened to.
pub open spec fn meaning_of(listener: InputListener, input: RawInput) -> Meaning {
    match input {
        RawInput::Mouse { flags } => if !listener.enable_mouse {
            Meaning::Nothing
        } else if flags & RI_MOUSE_MIDDLE_BUTTON_DOWN != 0 {
            Meaning::Press(Trigger::MiddleButton)
        } else if flags & RI_MOUSE_MIDDLE_BUTTON_UP != 0 {
            Meaning::Release(Trigger::MiddleButton)
        } else {
            Meaning::Nothing
        },
        RawInput::Keyboard { vkey, flags } => if !listener.enable_alt || !is_right_alt(
            vkey,
            flags,
        ) {
            Meaning::Nothing
        } else if flags & RI_KEY_BREAK != 0 {
            Meaning::Release(Trigger::RightAlt)
        } else {
            Meaning::Press(Trigger::RightAlt)
        },
        RawInput::Other => Meaning::Nothing,
    }
}

fn interpret(listener: InputListener, input: RawInput) -> (r: Meaning)
    ensures
        r == meaning_of(listener, input),
{
    match input {
        RawInput::Mouse { flags } => if !listener.enable_mouse {
            Meaning::Nothing
        } else if flags & RI_MOUSE_MIDDLE_BUTTON_DOWN != 0 {
            Meaning::Press(Trigger::MiddleButton)
        } else if flags & RI_MOUSE_MIDDLE_BUTTON_UP != 0 {
            Meaning::Release(Trigger::MiddleButton)
        } else {
            Meaning::Nothing
        },
        RawInput::Keyboard { vkey, flags } => {
            let right_alt = vkey == VK_RMENU || (vkey == VK_MENU && flags & RI_KEY_E0 != 0);
            if !listener.enable_alt || !right_alt {
                Meaning::Nothing
            } else if flags & RI_KEY_BREAK != 0 {
                Meaning::Release(Trigger::RightAlt)
            } else {
                Meaning::Press(Trigger::RightAlt)
            }
        },
        RawInput::Other => Meaning::Nothing,
    }
}

/// What follows from an input.
pub struct RawReaction {
    /// Whether the Control key is to be clicked, which keeps a released Alt key from opening
    /// the menu of a window.
    pub click_control: bool,
    /// The timer that is to be started, of this trigger and generation.
    pub timer: Option<(Trigger, u64)>,
    pub event: Option<InputEvent>,
}

/// The triggers.
#[derive(Clone, Copy, Debug, PartialEq, Eq, Structural)]
pub struct ListenerState {
    pub middle_trigger: HoldTrigger,
    pub alt_trigger: HoldTrigger,
}

impl ListenerState {
    pub open spec fn trigger(self, which: Trigger) -> HoldTrigger {
        match which {
            Trigger::MiddleButton => self.middle_trigger,
            Trigger::RightAlt => self.alt_trigger,
        }
    }

    /// The state with `t` in place of one of the triggers.
    pub open spec fn with(self, which: Trigger, t: HoldTrigger) -> ListenerState {
        match which {
            Trigger::MiddleButton => ListenerState { middle_trigger: t, ..self },
            Trigger::RightAlt => ListenerState { alt_trigger: t, ..self },
        }
    }

    pub fn new() -> (r: Self)
        ensures
            !r.middle_trigger.pressed,
            !r.alt_trigger.pressed,
            r.middle_trigger == r.alt_trigger,
            r.middle_trigger.generation == 0,
            !r.middle_trigger.skill_active,
    {
        ListenerState { middle_trigger: HoldTrigger::new(), alt_trigger: HoldTrigger::new() }
    }

    /// Takes an input from a device.
    pub fn handle_raw_input(&mut self, listener: InputListener, input: RawInput) -> (r: RawReaction)
        ensures
            match meaning_of(listener, input) {
                Meaning::Nothing => {
                    &&& *final(self) == *old(self)
                    &&& !r.click_control && r.timer is None && r.event is None
                },
                Meaning::Press(which) => {
                    let t = old(self).trigger(which);
                    &&& *final(self) == old(self).with(which, after_press(t))
                    &&& r.click_control == (which == Trigger::RightAlt)
                    &&& r.event is None
                    &&& r.timer == if t.pressed {
                        None
                    } else {
                        Some((which, next_generation(t.generation)))
                    }
                },
                Meaning::Release(which) => {
                    let t = old(self).trigger(which);
                    &&& *final(self) == old(self).with(which, after_release(t))
                    &&& !r.click_control && r.timer is None
                    &&& r.event == if !t.pressed {
                        None
                    } else if t.skill_active {
                        Some(InputEvent::StopSkill)
                    } else {
                        Some(InputEvent::Click)
                    }
                },
            },
    {
        match interpret(listener, input) {
            Meaning::Nothing => RawReaction { click_control: false, timer: None, event: None },
            Meaning::Press(which) => {
                let (generation, click_control) = match which {
                    Trigger::MiddleButton => (self.middle_trigger.on_press(), false),
                    Trigger::RightAlt => (self.alt_trigger.on_press(), true),
                };
                let timer = match generation {
                    Some(g) => Some((which, g)),
                    None => None,
                };
                RawReaction { click_control, timer, event: None }
            },
            Meaning::Release(which) => {
                let event = match which {
                    Trigger::MiddleButton => self.middle_trigger.on_release(),
                    Trigger::RightAlt => self.alt_trigger.on_release(),
                };
                RawReaction { click_control: false, timer: None, event }
            },
        }
    }

    /// The timer of a trigger has run off.
    pub fn timer_elapsed(&mut self, which: Trigger, generation: u64) -> (r: Option<InputEvent>)
        ensures
            *final(self) == old(self).with(which, after_timer(old(self).trigger(which), generation)),
            r == (if is_held(old(self).trigger(which), generation) {
                Some(InputEvent::StartSkill)
            } else {
                None
            }),
    {
        match which {
            Trigger::MiddleButton => self.middle_trigger.hold_elapsed(generation),
            Trigger::RightAlt => self.alt_trigger.hold_elapsed(generation),
        }
    }
}

/// The middle button of the mouse and the right Alt key are the triggers, where they are
/// listened to; the left Alt key is none.
pub proof fn law_the_triggers_are_heard(listener: InputListener, vkey: u16, flags: u16)
    ensures
        !listener.enable_mouse ==> meaning_of(listener, RawInput::Mouse { flags }) is Nothing,
        listener.enable_mouse && flags & 0x10u16 != 0 ==> meaning_of(
            listener,
            RawInput::Mouse { flags },
        ) == Meaning::Press(Trigger::MiddleButton),
        listener.enable_mouse && flags & 0x10u16 == 0 && flags & 0x20u16 != 0 ==> meaning_of(
            listener,
            RawInput::Mouse { flags },
        ) == Meaning::Release(Trigger::MiddleButton),
        flags & 0x10u16 == 0 && flags & 0x20u16 == 0 ==> meaning_of(
            listener,
            RawInput::Mouse { flags },
        ) is Nothing,
        !listener.enable_alt ==> meaning_of(listener, RawInput::Keyboard { vkey, flags }) is Nothing,
        vkey != 0x12 && vkey != 0xa5 ==> meaning_of(
            listener,
            RawInput::Keyboard { vkey, flags },
        ) is Nothing,
        vkey == 0x12 && flags & 2u16 == 0 ==> meaning_of(
            listener,
            RawInput::Keyboard { vkey, flags },
        ) is Nothing,
        listener.enable_alt && (vkey == 0xa5 || (vkey == 0x12 && flags & 2u16 != 0)) ==> meaning_of(
            listener,
            RawInput::Keyboard { vkey, flags },
        ) == (if flags & 1u16 != 0 {
            Meaning::Release(Trigger::RightAlt)
        } else {
            Meaning::Press(Trigger::RightAlt)
        }),
{
}

/// Each press has a timer of its own: that of the press before does not find the trigger held,
/// whatever happens in between.
pub proof fn law_each_press_has_its_own_timer(t: HoldTrigger)
    requires
        !t.pressed,
    ensures
        after_press(t).generation != t.generation,
        !is_held(after_press(t), t.generation),
        after_timer(after_press(t), t.generation) == after_press(t),
        after_press(after_press(t)) == after_press(t),
        after_release(after_release(t)) == after_release(t),
        after_release(after_press(t)).generation == after_press(t).generation,
{
}

/// What happens to one trigger does not touch the other.
pub proof fn law_triggers_are_apart(s: ListenerState, t: HoldTrigger)
    ensures
        s.with(Trigger::MiddleButton, t).trigger(Trigger::MiddleButton) == t,
        s.with(Trigger::RightAlt, t).trigger(Trigger::RightAlt) == t,
        s.with(Trigger::MiddleButton, t).trigger(Trigger::RightAlt) == s.alt_trigger,
        s.with(Trigger::RightAlt, t).trigger(Trigger::MiddleButton) == s.middle_trigger,
{
}

} // verus!
