use jimtel::params::{ParamId, ParamKind, NUM_PARAMS};

const ALL: [ParamId; 12] = [
    ParamId::InputGain,
    ParamId::OutputGain,
    ParamId::Limit,
    ParamId::HardLimit,
    ParamId::Attack,
    ParamId::Release,
    ParamId::LoudnessWindow,
    ParamId::PowerWindow,
    ParamId::CalculationInterval,
    ParamId::Delay,
    ParamId::Reset,
    ParamId::InfiniteSustain,
];

#[test]
fn names_and_units() {
    assert_eq!(ParamId::InputGain.name(), "input_gain");
    assert_eq!(ParamId::InputGain.unit(), "dB");
    assert_eq!(ParamId::Limit.name(), "limit");
    assert_eq!(ParamId::Limit.unit(), "LKFS");
    assert_eq!(ParamId::HardLimit.unit(), "dBFS");
    assert_eq!(ParamId::Attack.unit(), "ms");
    assert_eq!(ParamId::Reset.unit(), "");
    assert_eq!(ParamId::InfiniteSustain.name(), "infinite_sustain");
}

#[test]
fn ranges_are_ordered_and_kinds_consistent() {
    for id in ALL {
        assert!(id.min_value() <= id.max_value(), "{:?}", id);
        assert_eq!(id.is_button(), id.kind() == ParamKind::Button);
        assert_eq!(id.is_checkbox(), id.kind() == ParamKind::Checkbox);
    }
    assert_eq!(ParamId::InputGain.min_value(), -80);
    assert_eq!(ParamId::InputGain.max_value(), 80);
    assert_eq!(ParamId::Release.max_value(), 10000);
    assert_eq!(ParamId::Limit.max_value(), 0);
}

#[test]
fn index_round_trip() {
    assert_eq!(ALL.len(), NUM_PARAMS);
    for (n, id) in ALL.iter().enumerate() {
        assert_eq!(id.index(), n);
        assert_eq!(ParamId::from_index(n), Some(*id));
    }
    assert_eq!(ParamId::from_index(NUM_PARAMS), None);
}
