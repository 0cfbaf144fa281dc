use vstd::prelude::*;
use crate::float::Float32;
use crate::sensor::Sensor;
use crate::text::{same_text, uppercase, uppercase_of};
use crate::wire::{DataValue, DataValueView};

verus! {

/// Why a payload could not be decoded.
#[derive(Debug, PartialEq)]
pub enum DecodeError {
    /// The payload is no JSON, or not of the expected shape.
    InvalidPayload,
    /// An entry names a kind of value that is not known; it holds the name as
    /// written.
    InvalidValueType(String),
    /// An entry's value is no number; it holds the value as written.
    InvalidValue(String),
}

/// A [`DecodeError`] with its texts as sequences.
pub enum DecodeFailure {
    InvalidPayload,
    InvalidValueType(Seq<char>),
    InvalidValue(Seq<char>),
}

impl View for DecodeError {
    type V = DecodeFailure;

    open spec fn view(&self) -> DecodeFailure {
        match self {
            DecodeError::InvalidPayload => DecodeFailure::InvalidPayload,
            DecodeError::InvalidValueType(name) => DecodeFailure::InvalidValueType(name@),
            DecodeError::InvalidValue(value) => DecodeFailure::InvalidValue(value@),
        }
    }
}

/// A result with both sides taken by their views.
pub open spec fn result_view<T: View, E: View>(r: Result<T, E>) -> Result<T::V, E::V> {
    match r {
        Ok(value) => Ok(value@),
        Err(error) => Err(error@),
    }
}

/// The kind of a value as an entry names it. `UNKNOWN` holds a name that is none
/// of the eight kinds, as written.
#[derive(Debug, PartialEq, Eq, Hash)]
#[allow(non_camel_case_types)]
pub enum ValueType {
    SDS_P1,
    SDS_P2,
    TEMPERATURE,
    HUMIDITY,
    SAMPLES,
    MIN_MICRO,
    MAX_MICRO,
    SIGNAL,
    UNKNOWN(String),
}

/// A [`ValueType`] with its text as a sequence.
#[allow(non_camel_case_types)]
pub enum Kind {
    SDS_P1,
    SDS_P2,
    TEMPERATURE,
    HUMIDITY,
    SAMPLES,
    MIN_MICRO,
    MAX_MICRO,
    SIGNAL,
    UNKNOWN(Seq<char>),
}

impl View for ValueType {
    type V = Kind;

    open spec fn view(&self) -> Kind {
        match self {
            ValueType::SDS_P1 => Kind::SDS_P1,
            ValueType::SDS_P2 => Kind::SDS_P2,
            ValueType::TEMPERATURE => Kind::TEMPERATURE,
            ValueType::HUMIDITY => Kind::HUMIDITY,
            ValueType::SAMPLES => Kind::SAMPLES,
            ValueType::MIN_MICRO => Kind::MIN_MICRO,
            ValueType::MAX_MICRO => Kind::MAX_MICRO,
            ValueType::SIGNAL => Kind::SIGNAL,
            ValueType::UNKNOWN(name) => Kind::UNKNOWN(name@),
        }
    }
}

/// The kind that a name denotes, given the name in uppercase: one of the eight
/// where the uppercase name is theirs, `UNKNOWN` with the name as written
/// otherwise.
pub open spec fn kind_of(upper: Seq<char>, raw: Seq<char>) -> Kind {
    if upper == "SDS_P1"@ {
        Kind::SDS_P1
    } else if upper == "SDS_P2"@ {
        Kind::SDS_P2
    } else if upper == "TEMPERATURE"@ {
        Kind::TEMPERATURE
    } else if upper == "HUMIDITY"@ {
        Kind::HUMIDITY
    } else if upper == "SAMPLES"@ {
        Kind::SAMPLES
    } else if upper == "MIN_MICRO"@ {
        Kind::MIN_MICRO
    } else if upper == "MAX_MICRO"@ {
        Kind::MAX_MICRO
    } else if upper == "SIGNAL"@ {
        Kind::SIGNAL
    } else {
        Kind::UNKNOWN(raw)
    }
}

/// The kind that a name denotes, whatever its case.
pub open spec fn kind_named(name: Seq<char>) -> Kind {
    kind_of(uppercase_of(name), name)
}

/// Each of the eight names denotes its own kind, and any other uppercase name
/// denotes the unknown kind, which holds the name as written.
pub proof fn lemma_kinds_by_name(upper: Seq<char>, raw: Seq<char>)
    ensures
        kind_of("SDS_P1"@, raw) == Kind::SDS_P1,
        kind_of("SDS_P2"@, raw) == Kind::SDS_P2,
        kind_of("TEMPERATURE"@, raw) == Kind::TEMPERATURE,
        kind_of("HUMIDITY"@, raw) == Kind::HUMIDITY,
        kind_of("SAMPLES"@, raw) == Kind::SAMPLES,
        kind_of("MIN_MICRO"@, raw) == Kind::MIN_MICRO,
        kind_of("MAX_MICRO"@, raw) == Kind::MAX_MICRO,
        kind_of("SIGNAL"@, raw) == Kind::SIGNAL,
        kind_of(upper, raw) is UNKNOWN <==> {
            &&& upper != "SDS_P1"@
            &&& upper != "SDS_P2"@
            &&& upper != "TEMPERATURE"@
            &&& upper != "HUMIDITY"@
            &&& upper != "SAMPLES"@
            &&& upper != "MIN_MICRO"@
            &&& upper != "MAX_MICRO"@
            &&& upper != "SIGNAL"@
        },
        kind_of(upper, raw) is UNKNOWN ==> kind_of(upper, raw) == Kind::UNKNOWN(raw),
{
    reveal_strlit("SDS_P1");
    reveal_strlit("SDS_P2");
    reveal_strlit("TEMPERATURE");
    reveal_strlit("HUMIDITY");
    reveal_strlit("SAMPLES");
    reveal_strlit("MIN_MICRO");
    reveal_strlit("MAX_MICRO");
    reveal_strlit("SIGNAL");
    assert("SDS_P1"@.len() == 6 && "SDS_P1"@[5] == '1');
    assert("SDS_P2"@.len() == 6 && "SDS_P2"@[5] == '2');
    assert("TEMPERATURE"@.len() == 11);
    assert("HUMIDITY"@.len() == 8);
    assert("SAMPLES"@.len() == 7);
    assert("MIN_MICRO"@.len() == 9 && "MIN_MICRO"@[1] == 'I');
    assert("MAX_MICRO"@.len() == 9 && "MAX_MICRO"@[1] == 'A');
    assert("SIGNAL"@.len() == 6 && "SIGNAL"@[5] == 'L');
}

impl ValueType {
    /// The kind that a name denotes, given the name in uppercase and as written.
    pub fn classify(upper: &str, raw: &str) -> (r: ValueType)
        ensures
            r@ == kind_of(upper@, raw@),
    {
        if same_text(upper, "SDS_P1") {
            ValueType::SDS_P1
        } else if same_text(upper, "SDS_P2") {
            ValueType::SDS_P2
        } else if same_text(upper, "TEMPERATURE") {
            ValueType::TEMPERATURE
        } else if same_text(upper, "HUMIDITY") {
            ValueType::HUMIDITY
        } else if same_text(upper, "SAMPLES") {
            ValueType::SAMPLES
        } else if same_text(upper, "MIN_MICRO") {
            ValueType::MIN_MICRO
        } else if same_text(upper, "MAX_MICRO") {
            ValueType::MAX_MICRO
        } else if same_text(upper, "SIGNAL") {
            ValueType::SIGNAL
        } else {
            ValueType::UNKNOWN(raw.to_owned())
        }
    }
}

impl<'a> From<&'a str> for ValueType {
    /// The kind that a name denotes, whatever its case.
    fn from(type_str: &'a str) -> (r: ValueType)
        ensures
            r@ == kind_named(type_str@),
    {
        let upper = uppercase(type_str);
        ValueType::classify(upper.as_str(), type_str)
    }
}

impl<'a> vstd::std_specs::convert::FromSpecImpl<&'a str> for ValueType {
    open spec fn obeys_from_spec() -> bool {
        false
    }

    open spec fn from_spec(type_str: &'a str) -> ValueType {
        arbitrary()
    }
}

/// One measured value: its kind and the number measured.
#[derive(Debug, Clone, Copy, PartialEq, Eq, Structural)]
#[allow(non_camel_case_types)]
pub enum MeasuredValue {
    SDS_P1(Float32),
    SDS_P2(Float32),
    TEMPERATURE(Float32),
    HUMIDITY(Float32),
    SAMPLES(Float32),
    MIN_MICRO(Float32),
    MAX_MICRO(Float32),
    SIGNAL(Float32),
}

/// The value of a kind with a number, where the kind is one of the eight.
pub open spec fn value_of(kind: Kind, number: Float32) -> Option<MeasuredValue> {
    match kind {
        Kind::SDS_P1 => Some(MeasuredValue::SDS_P1(number)),
        Kind::SDS_P2 => Some(MeasuredValue::SDS_P2(number)),
        Kind::TEMPERATURE => Some(MeasuredValue::TEMPERATURE(number)),
        Kind::HUMIDITY => Some(MeasuredValue::HUMIDITY(number)),
        Kind::SAMPLES => Some(MeasuredValue::SAMPLES(number)),
        Kind::MIN_MICRO => Some(MeasuredValue::MIN_MICRO(number)),
        Kind::MAX_MICRO => Some(MeasuredValue::MAX_MICRO(number)),
        Kind::SIGNAL => Some(MeasuredValue::SIGNAL(number)),
        Kind::UNKNOWN(_) => None,
    }
}

/// The value that a kind and a number make, and `InvalidValueType` with the name
/// where the kind is unknown.
pub open spec fn typed_value(kind: Kind, number: Float32) -> Result<MeasuredValue, DecodeFailure> {
    match kind {
        Kind::UNKNOWN(name) => Err(DecodeFailure::InvalidValueType(name)),
        _ => Ok(value_of(kind, number)->0),
    }
}

impl MeasuredValue {
    /// The kind of the value.
    pub open spec fn spec_kind(self) -> Kind {
        match self {
            MeasuredValue::SDS_P1(_) => Kind::SDS_P1,
            MeasuredValue::SDS_P2(_) => Kind::SDS_P2,
            MeasuredValue::TEMPERATURE(_) => Kind::TEMPERATURE,
            MeasuredValue::HUMIDITY(_) => Kind::HUMIDITY,
            MeasuredValue::SAMPLES(_) => Kind::SAMPLES,
            MeasuredValue::MIN_MICRO(_) => Kind::MIN_MICRO,
            MeasuredValue::MAX_MICRO(_) => Kind::MAX_MICRO,
            MeasuredValue::SIGNAL(_) => Kind::SIGNAL,
        }
    }

    /// The number measured.
    pub open spec fn spec_number(self) -> Float32 {
        match self {
            MeasuredValue::SDS_P1(number) => number,
            MeasuredValue::SDS_P2(number) => number,
            MeasuredValue::TEMPERATURE(number) => number,
            MeasuredValue::HUMIDITY(number) => number,
            MeasuredValue::SAMPLES(number) => number,
            MeasuredValue::MIN_MICRO(number) => number,
            MeasuredValue::MAX_MICRO(number) => number,
            MeasuredValue::SIGNAL(number) => number,
        }
    }

    /// The kind of the value.
    pub fn kind(&self) -> (r: ValueType)
        ensures
            r@ == self.spec_kind(),
    {
        match self {
            MeasuredValue::SDS_P1(_) => ValueType::SDS_P1,
            MeasuredValue::SDS_P2(_) => ValueType::SDS_P2,
            MeasuredValue::TEMPERATURE(_) => ValueType::TEMPERATURE,
            MeasuredValue::HUMIDITY(_) => ValueType::HUMIDITY,
            MeasuredValue::SAMPLES(_) => ValueType::SAMPLES,
            MeasuredValue::MIN_MICRO(_) => ValueType::MIN_MICRO,
            MeasuredValue::MAX_MICRO(_) => ValueType::MAX_MICRO,
            MeasuredValue::SIGNAL(_) => ValueType::SIGNAL,
        }
    }

    /// The number measured.
    pub fn number(&self) -> (r: Float32)
        ensures
            r == self.spec_number(),
    {
        match self {
            MeasuredValue::SDS_P1(number) => *number,
            MeasuredValue::SDS_P2(number) => *number,
            MeasuredValue::TEMPERATURE(number) => *number,
            MeasuredValue::HUMIDITY(number) => *number,
            MeasuredValue::SAMPLES(number) => *number,
            MeasuredValue::MIN_MICRO(number) => *number,
            MeasuredValue::MAX_MICRO(number) => *number,
            MeasuredValue::SIGNAL(number) => *number,
        }
    }

    /// A value of the given kind. An unknown kind makes no value: it is an
    /// `InvalidValueType` with the name that the kind holds.
    pub fn new(kind: ValueType, number: Float32) -> (r: Result<MeasuredValue, DecodeError>)
        ensures
            match r {
                Ok(value) => typed_value(kind@, number) == Ok::<MeasuredValue, DecodeFailure>(value),
                Err(error) => typed_value(kind@, number) == Err::<MeasuredValue, DecodeFailure>(error@),
            },
    {
        match kind {
            ValueType::SDS_P1 => Ok(MeasuredValue::SDS_P1(number)),
            ValueType::SDS_P2 => Ok(MeasuredValue::SDS_P2(number)),
            ValueType::TEMPERATURE => Ok(MeasuredValue::TEMPERATURE(number)),
            ValueType::HUMIDITY => Ok(MeasuredValue::HUMIDITY(number)),
            ValueType::SAMPLES => Ok(MeasuredValue::SAMPLES(number)),
            ValueType::MIN_MICRO => Ok(MeasuredValue::MIN_MICRO(number)),
            ValueType::MAX_MICRO => Ok(MeasuredValue::MAX_MICRO(number)),
            ValueType::SIGNAL => Ok(MeasuredValue::SIGNAL(number)),
            ValueType::UNKNOWN(name) => Err(DecodeError::InvalidValueType(name)),
        }
    }

    /// The value that an entry's kind name and its number make. The name is
    /// matched against the eight kinds whatever its case.
    pub fn from_wire(type_str: &str, number: Float32) -> (r: Result<MeasuredValue, DecodeError>)
        ensures
            match r {
                Ok(value) => typed_value(kind_named(type_str@), number) == Ok::<MeasuredValue, DecodeFailure>(value),
                Err(error) => typed_value(kind_named(type_str@), number) == Err::<MeasuredValue, DecodeFailure>(error@),
            },
    {
        MeasuredValue::new(ValueType::from(type_str), number)
    }
}

/// What a sensor measured: its values in the order in which the payload lists
/// them.
#[derive(Debug, PartialEq)]
pub struct Measurement {
    pub sensor: Sensor,
    pub software_version: String,
    pub data_values: Vec<MeasuredValue>,
}

/// A [`Measurement`] with its text and its values as sequences.
pub struct MeasurementView {
    pub sensor: Sensor,
    pub software_version: Seq<char>,
    pub data_values: Seq<MeasuredValue>,
}

impl View for Measurement {
    type V = MeasurementView;

    open spec fn view(&self) -> MeasurementView {
        MeasurementView {
            sensor: self.sensor,
            software_version: self.software_version@,
            data_values: self.data_values@,
        }
    }
}

/// The number read for the entry at a position, where one was read. A position
/// for which no reading is given counts as one whose value is no number.
pub open spec fn number_at(numbers: Seq<Option<Float32>>, i: int) -> Option<Float32> {
    if 0 <= i < numbers.len() {
        numbers[i]
    } else {
        None
    }
}

/// The value that an entry denotes, given what reading its value as a number
/// gave: `InvalidValue` with the value as written where it is no number, else
/// `InvalidValueType` with the name as written where the kind is unknown, else the
/// value of that kind with that number.
pub open spec fn entry_value(entry: DataValueView, number: Option<Float32>) -> Result<
    MeasuredValue,
    DecodeFailure,
> {
    match number {
        None => Err(DecodeFailure::InvalidValue(entry.value)),
        Some(number) => typed_value(kind_named(entry.value_type), number),
    }
}

/// The values that the entries denote, in their order, or the failure of the first
/// entry that denotes none.
pub open spec fn values_of(entries: Seq<DataValueView>, numbers: Seq<Option<Float32>>) -> Result<
    Seq<MeasuredValue>,
    DecodeFailure,
>
    decreases entries.len(),
{
    if entries.len() == 0 {
        Ok(Seq::empty())
    } else {
        match values_of(entries.drop_last(), numbers) {
            Err(failure) => Err(failure),
            Ok(values) => match entry_value(entries.last(), number_at(numbers, entries.len() - 1)) {
                Err(failure) => Err(failure),
                Ok(value) => Ok(values.push(value)),
            },
        }
    }
}

/// The measurement that a payload denotes for a sensor, given the numbers read
/// from its entries.
pub open spec fn measurement_of(
    sensor: Sensor,
    wire: crate::wire::MeasurementView,
    numbers: Seq<Option<Float32>>,
) -> Result<MeasurementView, DecodeFailure> {
    match values_of(wire.data_values, numbers) {
        Ok(data_values) => Ok(
            MeasurementView { sensor, software_version: wire.software_version, data_values },
        ),
        Err(failure) => Err(failure),
    }
}

/// Where the entries up to some point already fail, all of them fail the same way.
proof fn lemma_failure_stays(
    entries: Seq<DataValueView>,
    numbers: Seq<Option<Float32>>,
    n: int,
)
    requires
        0 <= n <= entries.len(),
        values_of(entries.take(n), numbers) is Err,
    ensures
        values_of(entries, numbers) == values_of(entries.take(n), numbers),
    decreases entries.len() - n,
{
    if n == entries.len() {
        assert(entries.take(n) =~= entries);
    } else {
        assert(entries.take(n + 1).drop_last() =~= entries.take(n));
        lemma_failure_stays(entries, numbers, n + 1);
    }
}

/// What the values of a list of entries are, entry by entry: where all entries
/// denote a value, the values are theirs, one for one and in order, and none is of
/// an unknown kind; otherwise the failure is that of the first entry that denotes
/// none.
pub proof fn lemma_values_entry_by_entry(entries: Seq<DataValueView>, numbers: Seq<Option<Float32>>)
    ensures
        match values_of(entries, numbers) {
            Ok(values) => {
                &&& values.len() == entries.len()
                &&& forall|i: int|
                    0 <= i < entries.len() ==> entry_value(entries[i], number_at(numbers, i)) == Ok::<
                        MeasuredValue,
                        DecodeFailure,
                    >(#[trigger] values[i])
                &&& forall|i: int|
                    0 <= i < entries.len() ==> {
                        &&& (#[trigger] values[i]).spec_kind() == kind_named(entries[i].value_type)
                        &&& !(values[i].spec_kind() is UNKNOWN)
                    }
            },
            Err(failure) => exists|k: int|
                {
                    &&& 0 <= k < entries.len()
                    &&& #[trigger] entry_value(entries[k], number_at(numbers, k)) == Err::<
                        MeasuredValue,
                        DecodeFailure,
                    >(failure)
                    &&& forall|i: int|
                        0 <= i < k ==> (#[trigger] entry_value(entries[i], number_at(numbers, i))) is Ok
                },
        },
    decreases entries.len(),
{
    if entries.len() > 0 {
        let front = entries.drop_last();
        lemma_values_entry_by_entry(front, numbers);
        match values_of(front, numbers) {
            Ok(values) => {
                let k = entries.len() - 1;
                match entry_value(entries.last(), number_at(numbers, k)) {
                    Ok(value) => {
                        let all = values.push(value);
                        assert forall|i: int| 0 <= i < entries.len() implies entry_value(
                            entries[i],
                            number_at(numbers, i),
                        ) == Ok::<MeasuredValue, DecodeFailure>(#[trigger] all[i]) by {
                            if i < k {
                                assert(entries[i] == front[i]);
                                assert(all[i] == values[i]);
                            }
                        }
                        assert forall|i: int| 0 <= i < entries.len() implies {
                            &&& (#[trigger] all[i]).spec_kind() == kind_named(entries[i].value_type)
                            &&& !(all[i].spec_kind() is UNKNOWN)
                        } by {
                            if i < k {
                                assert(entries[i] == front[i]);
                                assert(all[i] == values[i]);
                            }
                        }
                    },
                    Err(failure) => {
                        assert forall|i: int| 0 <= i < k implies (#[trigger] entry_value(
                            entries[i],
                            number_at(numbers, i),
                        )) is Ok by {
                            assert(entries[i] == front[i]);
                            assert(entry_value(front[i], number_at(numbers, i)) == Ok::<
                                MeasuredValue,
                                DecodeFailure,
                            >(values[i]));
                        }
                        assert(entry_value(entries[k], number_at(numbers, k)) == Err::<
                            MeasuredValue,
                            DecodeFailure,
                        >(failure));
                    },
                }
            },
            Err(failure) => {
                let k = choose|k: int|
                    {
                        &&& 0 <= k < front.len()
                        &&& #[trigger] entry_value(front[k], number_at(numbers, k)) == Err::<
                            MeasuredValue,
                            DecodeFailure,
                        >(failure)
                        &&& forall|i: int|
                            0 <= i < k ==> (#[trigger] entry_value(front[i], number_at(numbers, i))) is Ok
                    };
                assert(entries[k] == front[k]);
                assert forall|i: int| 0 <= i < k implies (#[trigger] entry_value(
                    entries[i],
                    number_at(numbers, i),
                )) is Ok by {
                    assert(entries[i] == front[i]);
                    assert(entry_value(front[i], number_at(numbers, i)) is Ok);
                }
                assert(entry_value(entries[k], number_at(numbers, k)) == Err::<
                    MeasuredValue,
                    DecodeFailure,
                >(failure));
            },
        }
    }
}

/// The value that one entry denotes, given what reading its value as a number
/// gave.
pub fn decode_entry(entry: &DataValue, number: Option<Float32>) -> (r: Result<
    MeasuredValue,
    DecodeError,
>)
    ensures
        match r {
            Ok(value) => entry_value(entry@, number) == Ok::<MeasuredValue, DecodeFailure>(value),
            Err(error) => entry_value(entry@, number) == Err::<MeasuredValue, DecodeFailure>(error@),
        },
{
    match number {
        None => Err(DecodeError::InvalidValue(entry.value.clone())),
        Some(number) => MeasuredValue::from_wire(entry.value_type.as_str(), number),
    }
}

/// Turns a payload into the measurement of a sensor. `numbers` holds, for each
/// entry in order, what reading its value as a 32-bit number gave. The first entry
/// whose value is no number, or else whose kind is unknown, fails the whole
/// payload; otherwise the measurement holds one value for each entry, in the
/// payload's order.
pub fn wire_to_measurement(
    sensor: Sensor,
    wire: crate::wire::Measurement,
    numbers: &[Option<Float32>],
) -> (r: Result<Measurement, DecodeError>)
    ensures
        result_view(r) == measurement_of(sensor, wire@, numbers@),
{
    let crate::wire::Measurement { software_version, data_values: entries } = wire;
    let ghost views = wire@.data_values;
    let mut data_values: Vec<MeasuredValue> = Vec::new();
    let mut i: usize = 0;
    while i < entries.len()
        invariant
            i <= entries@.len(),
            views == wire@.data_values,
            views.len() == entries@.len(),
            forall|j: int| 0 <= j < views.len() ==> views[j] == (#[trigger] entries@[j])@,
            values_of(views.take(i as int), numbers@) == Ok::<Seq<MeasuredValue>, DecodeFailure>(
                data_values@,
            ),
        decreases entries@.len() - i,
    {
        let number = if i < numbers.len() {
            numbers[i]
        } else {
            None
        };
        proof {
            assert(views.take(i + 1).drop_last() =~= views.take(i as int));
            assert(views.take(i + 1).last() == entries@[i as int]@);
        }
        match decode_entry(&entries[i], number) {
            Ok(value) => {
                data_values.push(value);
            },
            Err(error) => {
                proof {
                    assert(values_of(views.take(i + 1), numbers@) == Err::<
                        Seq<MeasuredValue>,
                        DecodeFailure,
                    >(error@));
                    lemma_failure_stays(views, numbers@, i + 1);
                }
                return Err(error);
            },
        }
        i += 1;
    }
    proof {
        assert(views.take(i as int) =~= views);
    }
    Ok(Measurement { sensor, software_version, data_values })
}

/// What decoding the text of a payload for a sensor gives, given the numbers read
/// from its entries: `InvalidPayload` where the text is no payload, else what
/// turning the payload into a measurement gives.
pub open spec fn json_decoded(sensor: Sensor, json: Seq<char>, numbers: Seq<Option<Float32>>) -> Result<
    MeasurementView,
    DecodeFailure,
> {
    match crate::wire::decoded(json) {
        Ok(wire) => measurement_of(sensor, wire, numbers),
        Err(failure) => Err(failure),
    }
}

impl Measurement {
    /// Decodes the text of a payload into the measurement of a sensor. `numbers`
    /// holds, for each entry of the payload in order, what reading its value as a
    /// 32-bit number gave. A text that is no payload is an `InvalidPayload`; a
    /// payload is turned into a measurement as [`wire_to_measurement`] says, whole
    /// or not at all.
    pub fn from_json(sensor: Sensor, json: &str, numbers: &[Option<Float32>]) -> (r: Result<
        Measurement,
        DecodeError,
    >)
        ensures
            result_view(r) == json_decoded(sensor, json@, numbers@),
    {
        match crate::wire::decode_json_to_measurement(json) {
            Ok(wire) => wire_to_measurement(sensor, wire, numbers),
            Err(error) => Err(error),
        }
    }
}

/// Decoding is a function of the sensor, the text and the numbers read: two
/// decodings of the same three hold the same measurement, or the same failure.
pub proof fn lemma_decoding_is_deterministic(
    sensor: Sensor,
    json: Seq<char>,
    numbers: Seq<Option<Float32>>,
    first: Result<Measurement, DecodeError>,
    second: Result<Measurement, DecodeError>,
)
    requires
        result_view(first) == json_decoded(sensor, json, numbers),
        result_view(second) == json_decoded(sensor, json, numbers),
    ensures
        result_view(first) == result_view(second),
        first is Ok <==> second is Ok,
{
}

/// A decoded measurement holds one value for each entry of the payload, in the
/// payload's order, each of the kind that its entry names and none of an unknown
/// kind.
pub proof fn lemma_decoded_values_are_of_known_kinds(
    sensor: Sensor,
    json: Seq<char>,
    numbers: Seq<Option<Float32>>,
)
    requires
        json_decoded(sensor, json, numbers) is Ok,
    ensures
        crate::wire::decoded(json) is Ok,
        ({
            let wire = crate::wire::decoded(json)->Ok_0;
            let measurement = json_decoded(sensor, json, numbers)->Ok_0;
            &&& measurement.sensor == sensor
            &&& measurement.software_version == wire.software_version
            &&& measurement.data_values.len() == wire.data_values.len()
            &&& forall|i: int|
                0 <= i < wire.data_values.len() ==> {
                    &&& (#[trigger] measurement.data_values[i]).spec_kind() == kind_named(
                        wire.data_values[i].value_type,
                    )
                    &&& !(measurement.data_values[i].spec_kind() is UNKNOWN)
                    &&& number_at(numbers, i) == Some(measurement.data_values[i].spec_number())
                }
        }),
{
    let wire = crate::wire::decoded(json)->Ok_0;
    lemma_values_entry_by_entry(wire.data_values, numbers);
    let values = values_of(wire.data_values, numbers)->Ok_0;
    assert forall|i: int| 0 <= i < wire.data_values.len() implies number_at(numbers, i) == Some(
        (#[trigger] values[i]).spec_number(),
    ) by {
        assert(entry_value(wire.data_values[i], number_at(numbers, i)) == Ok::<
            MeasuredValue,
            DecodeFailure,
        >(values[i]));
    }
}

/// Turning a payload into a measurement is a function of the sensor, the payload
/// and the numbers read: two results for the same three hold the same
/// measurement, or the same failure.
pub proof fn lemma_conversion_is_deterministic(
    sensor: Sensor,
    wire: crate::wire::MeasurementView,
    numbers: Seq<Option<Float32>>,
    first: Result<Measurement, DecodeError>,
    second: Result<Measurement, DecodeError>,
)
    requires
        result_view(first) == measurement_of(sensor, wire, numbers),
        result_view(second) == measurement_of(sensor, wire, numbers),
    ensures
        result_view(first) == result_view(second),
        first is Ok <==> second is Ok,
{
}

} // verus!
