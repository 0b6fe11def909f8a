//! Static parameter descriptor table.
//!
//! The host-facing parameter surface of the engine: one enumerated
//! identifier per control, with name, unit, range and kind pinned at
//! compile time.  This replaces runtime reflection over a parameter index:
//! every lookup is a total function of the identifier, and the contracts
//! below state each table entry exactly.  Ranges are in engineering units
//! (decibels, milliseconds); the host converts them to the engine's linear
//! fixed-point values at the boundary.

use vstd::prelude::*;

verus! {

/// How many parameters the table holds.
pub const NUM_PARAMS: usize = 12;

/// The unit/widget kind of a parameter.
#[derive(Clone, Copy, PartialEq, Eq, Debug)]
pub enum ParamKind {
    /// A relative gain, in decibels.
    Decibel,
    /// An absolute level against digital full scale, in decibels.
    DecibelFullScale,
    /// A loudness level, in loudness units against full scale.
    LoudnessUnits,
    /// A time, in milliseconds.
    Milliseconds,
    /// An edge-triggered button; only 0 and 1 are meaningful.
    Button,
    /// An on/off switch; only 0 and 1 are meaningful.
    Checkbox,
}

/// The identifier of one engine parameter.
#[derive(Clone, Copy, PartialEq, Eq, Debug)]
pub enum ParamId {
    InputGain,
    OutputGain,
    Limit,
    HardLimit,
    Attack,
    Release,
    LoudnessWindow,
    PowerWindow,
    CalculationInterval,
    Delay,
    Reset,
    InfiniteSustain,
}

/// The table position of each parameter.
pub open spec fn param_index_spec(id: ParamId) -> int {
    match id {
        ParamId::InputGain => 0,
        ParamId::OutputGain => 1,
        ParamId::Limit => 2,
        ParamId::HardLimit => 3,
        ParamId::Attack => 4,
        ParamId::Release => 5,
        ParamId::LoudnessWindow => 6,
        ParamId::PowerWindow => 7,
        ParamId::CalculationInterval => 8,
        ParamId::Delay => 9,
        ParamId::Reset => 10,
        ParamId::InfiniteSustain => 11,
    }
}

/// The name of each parameter.
pub open spec fn param_name_spec(id: ParamId) -> Seq<char> {
    match id {
        ParamId::InputGain => "input_gain"@,
        ParamId::OutputGain => "output_gain"@,
        ParamId::Limit => "limit"@,
        ParamId::HardLimit => "hard_limit"@,
        ParamId::Attack => "attack"@,
        ParamId::Release => "release"@,
        ParamId::LoudnessWindow => "loudness_window"@,
        ParamId::PowerWindow => "power_window"@,
        ParamId::CalculationInterval => "calculation_interval"@,
        ParamId::Delay => "delay"@,
        ParamId::Reset => "reset"@,
        ParamId::InfiniteSustain => "infinite_sustain"@,
    }
}

/// The unit label of each parameter.
pub open spec fn param_unit_spec(id: ParamId) -> Seq<char> {
    match param_kind_spec(id) {
        ParamKind::Decibel => "dB"@,
        ParamKind::DecibelFullScale => "dBFS"@,
        ParamKind::LoudnessUnits => "LKFS"@,
        ParamKind::Milliseconds => "ms"@,
        ParamKind::Button => ""@,
        ParamKind::Checkbox => ""@,
    }
}

/// The kind of each parameter.
pub open spec fn param_kind_spec(id: ParamId) -> ParamKind {
    match id {
        ParamId::InputGain => ParamKind::Decibel,
        ParamId::OutputGain => ParamKind::Decibel,
        ParamId::Limit => ParamKind::LoudnessUnits,
        ParamId::HardLimit => ParamKind::DecibelFullScale,
        ParamId::Attack => ParamKind::Milliseconds,
        ParamId::Release => ParamKind::Milliseconds,
        ParamId::LoudnessWindow => ParamKind::Milliseconds,
        ParamId::PowerWindow => ParamKind::Milliseconds,
        ParamId::CalculationInterval => ParamKind::Milliseconds,
        ParamId::Delay => ParamKind::Milliseconds,
        ParamId::Reset => ParamKind::Button,
        ParamId::InfiniteSustain => ParamKind::Checkbox,
    }
}

/// The smallest admissible value of each parameter, in engineering units.
pub open spec fn param_min_spec(id: ParamId) -> int {
    match id {
        ParamId::InputGain => -80,
        ParamId::OutputGain => -80,
        ParamId::Limit => -80,
        ParamId::HardLimit => -80,
        ParamId::Attack => 0,
        ParamId::Release => 0,
        ParamId::LoudnessWindow => 1,
        ParamId::PowerWindow => 1,
        ParamId::CalculationInterval => 1,
        ParamId::Delay => 0,
        ParamId::Reset => 0,
        ParamId::InfiniteSustain => 0,
    }
}

/// The largest admissible value of each parameter, in engineering units.
pub open spec fn param_max_spec(id: ParamId) -> int {
    match id {
        ParamId::InputGain => 80,
        ParamId::OutputGain => 80,
        ParamId::Limit => 0,
        ParamId::HardLimit => 0,
        ParamId::Attack => 5000,
        ParamId::Release => 10000,
        ParamId::LoudnessWindow => 1000,
        ParamId::PowerWindow => 1000,
        ParamId::CalculationInterval => 1000,
        ParamId::Delay => 1000,
        ParamId::Reset => 1,
        ParamId::InfiniteSustain => 1,
    }
}

impl ParamId {
    /// The table position of this parameter.
    pub fn index(&self) -> (r: usize)
        ensures
            r == param_index_spec(*self),
            r < NUM_PARAMS,
    {
        match self {
            ParamId::InputGain => 0,
            ParamId::OutputGain => 1,
            ParamId::Limit => 2,
            ParamId::HardLimit => 3,
            ParamId::Attack => 4,
            ParamId::Release => 5,
            ParamId::LoudnessWindow => 6,
            ParamId::PowerWindow => 7,
            ParamId::CalculationInterval => 8,
            ParamId::Delay => 9,
            ParamId::Reset => 10,
            ParamId::InfiniteSustain => 11,
        }
    }

    /// The parameter at a table position.
    pub fn from_index(index: usize) -> (r: Option<ParamId>)
        ensures
            index < NUM_PARAMS <==> r is Some,
            r matches Some(id) ==> param_index_spec(id) == index,
    {
        match index {
            0 => Some(ParamId::InputGain),
            1 => Some(ParamId::OutputGain),
            2 => Some(ParamId::Limit),
            3 => Some(ParamId::HardLimit),
            4 => Some(ParamId::Attack),
            5 => Some(ParamId::Release),
            6 => Some(ParamId::LoudnessWindow),
            7 => Some(ParamId::PowerWindow),
            8 => Some(ParamId::CalculationInterval),
            9 => Some(ParamId::Delay),
            10 => Some(ParamId::Reset),
            11 => Some(ParamId::InfiniteSustain),
            _ => None,
        }
    }

    /// The parameter's name.
    pub fn name(&self) -> (r: &'static str)
        ensures
            r@ == param_name_spec(*self),
    {
        match self {
            ParamId::InputGain => "input_gain",
            ParamId::OutputGain => "output_gain",
            ParamId::Limit => "limit",
            ParamId::HardLimit => "hard_limit",
            ParamId::Attack => "attack",
            ParamId::Release => "release",
            ParamId::LoudnessWindow => "loudness_window",
            ParamId::PowerWindow => "power_window",
            ParamId::CalculationInterval => "calculation_interval",
            ParamId::Delay => "delay",
            ParamId::Reset => "reset",
            ParamId::InfiniteSustain => "infinite_sustain",
        }
    }

    /// The parameter's unit label.
    pub fn unit(&self) -> (r: &'static str)
        ensures
            r@ == param_unit_spec(*self),
    {
        match self.kind() {
            ParamKind::Decibel => "dB",
            ParamKind::DecibelFullScale => "dBFS",
            ParamKind::LoudnessUnits => "LKFS",
            ParamKind::Milliseconds => "ms",
            ParamKind::Button => "",
            ParamKind::Checkbox => "",
        }
    }

    /// The parameter's kind.
    pub fn kind(&self) -> (r: ParamKind)
        ensures
            r == param_kind_spec(*self),
    {
        match self {
            ParamId::InputGain => ParamKind::Decibel,
            ParamId::OutputGain => ParamKind::Decibel,
            ParamId::Limit => ParamKind::LoudnessUnits,
            ParamId::HardLimit => ParamKind::DecibelFullScale,
            ParamId::Attack => ParamKind::Milliseconds,
            ParamId::Release => ParamKind::Milliseconds,
            ParamId::LoudnessWindow => ParamKind::Milliseconds,
            ParamId::PowerWindow => ParamKind::Milliseconds,
            ParamId::CalculationInterval => ParamKind::Milliseconds,
            ParamId::Delay => ParamKind::Milliseconds,
            ParamId::Reset => ParamKind::Button,
            ParamId::InfiniteSustain => ParamKind::Checkbox,
        }
    }

    /// Whether the parameter is an edge-triggered button.
    pub fn is_button(&self) -> (r: bool)
        ensures
            r == (param_kind_spec(*self) is Button),
    {
        matches!(self, ParamId::Reset)
    }

    /// Whether the parameter is an on/off switch.
    pub fn is_checkbox(&self) -> (r: bool)
        ensures
            r == (param_kind_spec(*self) is Checkbox),
    {
        matches!(self, ParamId::InfiniteSustain)
    }

    /// The parameter's smallest admissible value, in engineering units.
    pub fn min_value(&self) -> (r: i64)
        ensures
            r == param_min_spec(*self),
    {
        match self {
            ParamId::InputGain => -80,
            ParamId::OutputGain => -80,
            ParamId::Limit => -80,
            ParamId::HardLimit => -80,
            ParamId::Attack => 0,
            ParamId::Release => 0,
            ParamId::LoudnessWindow => 1,
            ParamId::PowerWindow => 1,
            ParamId::CalculationInterval => 1,
            ParamId::Delay => 0,
            ParamId::Reset => 0,
            ParamId::InfiniteSustain => 0,
        }
    }

    /// The parameter's largest admissible value, in engineering units.
    pub fn max_value(&self) -> (r: i64)
        ensures
            r == param_max_spec(*self),
    {
        match self {
            ParamId::InputGain => 80,
            ParamId::OutputGain => 80,
            ParamId::Limit => 0,
            ParamId::HardLimit => 0,
            ParamId::Attack => 5000,
            ParamId::Release => 10000,
            ParamId::LoudnessWindow => 1000,
            ParamId::PowerWindow => 1000,
            ParamId::CalculationInterval => 1000,
            ParamId::Delay => 1000,
            ParamId::Reset => 1,
            ParamId::InfiniteSustain => 1,
        }
    }
}

} // verus!
