//! Reference pitch: the frequency that the tuner measures against, moved up
//! and down in steps of one hertz by two buttons.

use vstd::prelude::*;

verus! {

/// The reference pitch at power-up, in hertz.
pub const DEFAULT_PITCH: i32 = 440;

/// Magnitude beyond which a step of one hertz no longer moves the pitch: the
/// largest up to which single precision, in which the pitch is handed on,
/// holds every whole number.
pub const PITCH_LIMIT: i32 = 16_777_216;

/// The pitch `hz` after one turn of the loop in which `up` and `down` say
/// whether the respective button was newly pressed. The step up comes first.
pub open spec fn stepped(hz: int, up: bool, down: bool) -> int {
    let raised = if up && hz < PITCH_LIMIT {
        hz + 1
    } else {
        hz
    };
    if down && raised > -PITCH_LIMIT {
        raised - 1
    } else {
        raised
    }
}

/// The reference pitch and what is remembered of the buttons.
pub struct PitchView {
    pub hz: int,
    pub up_held: bool,
    pub down_held: bool,
}

impl PitchView {
    /// The state at power-up.
    pub open spec fn initial() -> PitchView {
        PitchView { hz: DEFAULT_PITCH as int, up_held: false, down_held: false }
    }

    /// The pitch stays within the limit.
    pub open spec fn wf(self) -> bool {
        -PITCH_LIMIT <= self.hz <= PITCH_LIMIT
    }

    /// The state after one scan in which the buttons read `up_low` and
    /// `down_low`: a button counts once when it goes down, not while held.
    pub open spec fn scanned(self, up_low: bool, down_low: bool) -> PitchView {
        PitchView {
            hz: stepped(self.hz, up_low && !self.up_held, down_low && !self.down_held),
            up_held: up_low,
            down_held: down_low,
        }
    }
}

/// The reference pitch, with the state of its two buttons.
pub struct ReferencePitch {
    hz: i32,
    press_up: bool,
    press_down: bool,
}

impl View for ReferencePitch {
    type V = PitchView;

    closed spec fn view(&self) -> PitchView {
        PitchView { hz: self.hz as int, up_held: self.press_up, down_held: self.press_down }
    }
}

impl ReferencePitch {
    /// What holds of every reference pitch.
    #[verifier::type_invariant]
    pub open spec fn within_limit(self) -> bool {
        self@.wf()
    }

    /// The reference pitch at power-up, with no button held.
    pub fn new() -> (pitch: ReferencePitch)
        ensures
            pitch@ == PitchView::initial(),
    {
        ReferencePitch { hz: DEFAULT_PITCH, press_up: false, press_down: false }
    }

    /// The pitch in hertz.
    pub fn hz(&self) -> (hz: i32)
        ensures
            hz == self@.hz,
            -PITCH_LIMIT <= hz <= PITCH_LIMIT,
    {
        proof {
            use_type_invariant(self);
        }
        self.hz
    }

    /// Takes one reading of the two buttons; `true` stands for a button that
    /// reads low, which is a button held down.
    pub fn scan_buttons(&mut self, up_low: bool, down_low: bool)
        ensures
            final(self)@ == old(self)@.scanned(up_low, down_low),
            final(self)@.wf(),
    {
        proof {
            use_type_invariant(&*self);
        }
        let mut hz = self.hz;
        if up_low && !self.press_up && hz < PITCH_LIMIT {
            hz = hz + 1;
        }
        if down_low && !self.press_down && hz > -PITCH_LIMIT {
            hz = hz - 1;
        }
        *self = ReferencePitch { hz, press_up: up_low, press_down: down_low };
    }
}

/// The state after `scans` scans with the upper button held and the lower
/// one released.
pub open spec fn held_up(pitch: PitchView, scans: nat) -> PitchView
    decreases scans,
{
    if scans == 0 {
        pitch
    } else {
        held_up(pitch, (scans - 1) as nat).scanned(true, false)
    }
}

/// A button that is held over several scans counts once.
pub proof fn lemma_held_button_counts_once(pitch: PitchView, scans: nat)
    requires
        !pitch.up_held,
        pitch.hz < PITCH_LIMIT,
        scans > 0,
    ensures
        held_up(pitch, scans).hz == pitch.hz + 1,
        held_up(pitch, scans).up_held,
    decreases scans,
{
    reveal_with_fuel(held_up, 2);
    if scans > 1 {
        lemma_held_button_counts_once(pitch, (scans - 1) as nat);
    }
}

} // verus!
