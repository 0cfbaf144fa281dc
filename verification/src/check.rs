use vstd::prelude::*;
use crate::float::Float32;
use crate::measurement::{MeasuredValue, Measurement};

verus! {

/// A measurement together with the values in it that exceed their threshold.
#[derive(Debug, PartialEq)]
pub struct CheckedMeasurement {
    pub measurement: Measurement,
    pub has_violations: bool,
    pub violations: Vec<MeasuredValue>,
}

/// Whether a value exceeds its threshold: a PM 10 value that is greater than the
/// PM 10 threshold, or a PM 2.5 value that is greater than the PM 2.5 threshold.
/// No value of another kind exceeds anything.
pub open spec fn is_violation(value: MeasuredValue, pm10: Float32, pm2: Float32) -> bool {
    match value {
        MeasuredValue::SDS_P1(number) => number.is_greater(pm10),
        MeasuredValue::SDS_P2(number) => number.is_greater(pm2),
        _ => false,
    }
}

/// The values that exceed their threshold, in the order in which they were
/// measured.
pub open spec fn violations_of(values: Seq<MeasuredValue>, pm10: Float32, pm2: Float32) -> Seq<
    MeasuredValue,
> {
    values.filter(|value: MeasuredValue| is_violation(value, pm10, pm2))
}

/// Whether `checked` is what holding a measurement against the thresholds of its
/// sensor gives: the measurement itself, its violations, and whether there are
/// any.
pub open spec fn is_check_of(checked: CheckedMeasurement, measurement: Measurement) -> bool {
    &&& checked.measurement == measurement
    &&& checked.violations@ == violations_of(
        measurement.data_values@,
        measurement.sensor.threshold_pm10->0,
        measurement.sensor.threshold_pm2->0,
    )
    &&& checked.has_violations == (checked.violations@.len() > 0)
}

/// Whether a value exceeds its threshold.
pub fn exceeds(value: &MeasuredValue, pm10: Float32, pm2: Float32) -> (r: bool)
    ensures
        r == is_violation(*value, pm10, pm2),
{
    match value {
        MeasuredValue::SDS_P1(number) => number.gt(pm10),
        MeasuredValue::SDS_P2(number) => number.gt(pm2),
        _ => false,
    }
}

/// Holds a measurement against the thresholds of its sensor.
pub fn check_measurement(measurement: Measurement) -> (r: CheckedMeasurement)
    requires
        measurement.sensor.threshold_pm10 is Some,
        measurement.sensor.threshold_pm2 is Some,
    ensures
        is_check_of(r, measurement),
{
    let pm10 = measurement.sensor.threshold_pm10.unwrap();
    let pm2 = measurement.sensor.threshold_pm2.unwrap();
    let ghost values = measurement.data_values@;
    let ghost exceeding = |value: MeasuredValue| is_violation(value, pm10, pm2);
    let mut violations: Vec<MeasuredValue> = Vec::new();
    let mut i: usize = 0;
    proof {
        reveal(Seq::filter);
        assert(values.take(0).filter(exceeding) =~= Seq::<MeasuredValue>::empty());
    }
    while i < measurement.data_values.len()
        invariant
            i <= values.len(),
            values == measurement.data_values@,
            exceeding == |value: MeasuredValue| is_violation(value, pm10, pm2),
            violations@ == values.take(i as int).filter(exceeding),
        decreases values.len() - i,
    {
        let value = measurement.data_values[i];
        proof {
            reveal(Seq::filter);
            assert(values.take(i + 1).drop_last() =~= values.take(i as int));
            assert(values.take(i + 1).last() == value);
        }
        if exceeds(&value, pm10, pm2) {
            violations.push(value);
        }
        i += 1;
    }
    proof {
        assert(values.take(i as int) =~= values);
    }
    let has_violations = violations.len() > 0;
    CheckedMeasurement { measurement, has_violations, violations }
}

/// The check is strict. A PM 10 or PM 2.5 value exceeds its threshold exactly
/// where it is the greater number; one that is the same number as its threshold
/// does not, and neither does a NaN, nor anything a threshold that is a NaN. A
/// value of any other kind never does.
pub proof fn lemma_check_is_strict(value: MeasuredValue, pm10: Float32, pm2: Float32)
    ensures
        value matches MeasuredValue::SDS_P1(number) ==> (is_violation(value, pm10, pm2)
            <==> number.is_greater(pm10)),
        value matches MeasuredValue::SDS_P2(number) ==> (is_violation(value, pm10, pm2)
            <==> number.is_greater(pm2)),
        value matches MeasuredValue::SDS_P1(number) ==> (number.is_same_number(pm10)
            ==> !is_violation(value, pm10, pm2)),
        value matches MeasuredValue::SDS_P2(number) ==> (number.is_same_number(pm2)
            ==> !is_violation(value, pm10, pm2)),
        value matches MeasuredValue::SDS_P1(number) ==> (number.is_nan() || pm10.is_nan()
            ==> !is_violation(value, pm10, pm2)),
        value matches MeasuredValue::SDS_P2(number) ==> (number.is_nan() || pm2.is_nan()
            ==> !is_violation(value, pm10, pm2)),
        !(value is SDS_P1) && !(value is SDS_P2) ==> !is_violation(value, pm10, pm2),
{
}

/// Every violation is a value of the measurement that exceeds its threshold, and
/// there is one exactly where some value of the measurement does.
pub proof fn lemma_violations_are_the_exceeding_values(
    values: Seq<MeasuredValue>,
    pm10: Float32,
    pm2: Float32,
)
    ensures
        forall|i: int|
            0 <= i < violations_of(values, pm10, pm2).len() ==> {
                &&& is_violation(#[trigger] violations_of(values, pm10, pm2)[i], pm10, pm2)
                &&& values.contains(violations_of(values, pm10, pm2)[i])
            },
        violations_of(values, pm10, pm2).len() > 0 <==> exists|i: int|
            0 <= i < values.len() && is_violation(#[trigger] values[i], pm10, pm2),
        violations_of(values, pm10, pm2).len() <= values.len(),
    decreases values.len(),
{
    reveal(Seq::filter);
    let exceeding = |value: MeasuredValue| is_violation(value, pm10, pm2);
    let found = violations_of(values, pm10, pm2);
    if values.len() > 0 {
        let front = values.drop_last();
        let before = violations_of(front, pm10, pm2);
        lemma_violations_are_the_exceeding_values(front, pm10, pm2);
        assert forall|i: int| 0 <= i < found.len() implies {
            &&& is_violation(#[trigger] found[i], pm10, pm2)
            &&& values.contains(found[i])
        } by {
            if i < before.len() {
                assert(found[i] == before[i]);
                let k = choose|k: int| 0 <= k < front.len() && front[k] == before[i];
                assert(values[k] == found[i]);
            } else {
                assert(found[i] == values.last());
                assert(values[values.len() - 1] == found[i]);
            }
        }
        if found.len() > 0 {
            if before.len() > 0 {
                let k = choose|k: int| 0 <= k < front.len() && is_violation(#[trigger] front[k], pm10, pm2);
                assert(is_violation(values[k], pm10, pm2));
            } else {
                assert(is_violation(values[values.len() - 1], pm10, pm2));
            }
        }
        if exists|i: int| 0 <= i < values.len() && is_violation(#[trigger] values[i], pm10, pm2) {
            let k = choose|i: int| 0 <= i < values.len() && is_violation(#[trigger] values[i], pm10, pm2);
            if k < front.len() {
                assert(is_violation(front[k], pm10, pm2));
            }
        }
    }
}

/// Whether `chosen` holds the values of `values` at the given positions, the
/// positions rising.
pub open spec fn is_selection(
    positions: Seq<int>,
    values: Seq<MeasuredValue>,
    chosen: Seq<MeasuredValue>,
) -> bool {
    &&& positions.len() == chosen.len()
    &&& forall|i: int| 0 <= i < positions.len() ==> 0 <= #[trigger] positions[i] < values.len()
    &&& forall|i: int, j: int|
        0 <= i < j < positions.len() ==> #[trigger] positions[i] < #[trigger] positions[j]
    &&& forall|i: int| 0 <= i < positions.len() ==> values[#[trigger] positions[i]] == chosen[i]
}

/// The violations keep the order of the measurement: they are the values at
/// rising positions of it.
pub proof fn lemma_violations_keep_their_order(values: Seq<MeasuredValue>, pm10: Float32, pm2: Float32)
    ensures
        exists|positions: Seq<int>| #[trigger]
            is_selection(positions, values, violations_of(values, pm10, pm2)),
    decreases values.len(),
{
    reveal(Seq::filter);
    let found = violations_of(values, pm10, pm2);
    if values.len() == 0 {
        assert(is_selection(Seq::<int>::empty(), values, found));
    } else {
        let front = values.drop_last();
        let before = violations_of(front, pm10, pm2);
        lemma_violations_keep_their_order(front, pm10, pm2);
        let earlier = choose|positions: Seq<int>| #[trigger] is_selection(positions, front, before);
        let positions = if is_violation(values.last(), pm10, pm2) {
            earlier.push(values.len() - 1)
        } else {
            earlier
        };
        assert forall|i: int| 0 <= i < positions.len() implies 0 <= #[trigger] positions[i]
            < values.len() by {
            if i < earlier.len() {
                assert(positions[i] == earlier[i]);
            }
        }
        assert forall|i: int, j: int| 0 <= i < j < positions.len() implies #[trigger] positions[i]
            < #[trigger] positions[j] by {
            assert(positions[i] == earlier[i]);
            if j < earlier.len() {
                assert(positions[j] == earlier[j]);
            }
        }
        assert forall|i: int| 0 <= i < positions.len() implies values[#[trigger] positions[i]]
            == found[i] by {
            if i < earlier.len() {
                assert(positions[i] == earlier[i]);
                assert(front[earlier[i]] == before[i]);
                assert(found[i] == before[i]);
            }
        }
        assert(is_selection(positions, values, found));
    }
}

} // verus!
