use vstd::prelude::*;
use vstd::string::*;
use crate::json::{
    escaped, json_of, json_quoted, json_tree, lemma_escaped_reads_back, parse, quote, read_escaped,
    text_at, text_member, unescaped_from, JsonTree,
};
use crate::measurement::result_view;
use crate::sensor::SensorId;
use crate::text::{chars_of, same_text};

verus! {

/// Whether a sensor's last measurement exceeded a threshold.
#[derive(Debug, Clone, Copy, PartialEq, Eq, Structural)]
pub enum AlarmState {
    Normal,
    ThresholdExceeded,
}

/// The record that is kept of a sensor between runs.
#[derive(Debug, PartialEq)]
pub struct SensorState {
    pub sensor_id: SensorId,
    pub alarm_state: AlarmState,
}

/// A [`SensorState`] with its text as a sequence.
pub struct SensorStateView {
    pub sensor_id: Seq<char>,
    pub alarm_state: AlarmState,
}

impl View for SensorState {
    type V = SensorStateView;

    open spec fn view(&self) -> SensorStateView {
        SensorStateView { sensor_id: self.sensor_id@, alarm_state: self.alarm_state }
    }
}

/// Why a sensor's record could not be read or written; each holds the sensor's
/// id.
#[derive(Debug, PartialEq)]
pub enum StateError {
    LoadFailed(String),
    SaveFailed(String),
}

/// A [`StateError`] with its text as a sequence.
pub enum StateFailure {
    LoadFailed(Seq<char>),
    SaveFailed(Seq<char>),
}

impl View for StateError {
    type V = StateFailure;

    open spec fn view(&self) -> StateFailure {
        match self {
            StateError::LoadFailed(sensor_id) => StateFailure::LoadFailed(sensor_id@),
            StateError::SaveFailed(sensor_id) => StateFailure::SaveFailed(sensor_id@),
        }
    }
}

/// The name under which a record holds an alarm state.
pub open spec fn state_name(state: AlarmState) -> Seq<char> {
    match state {
        AlarmState::Normal => "Normal"@,
        AlarmState::ThresholdExceeded => "ThresholdExceeded"@,
    }
}

/// The alarm state that a name denotes, where it denotes one.
pub open spec fn state_named(name: Seq<char>) -> Option<AlarmState> {
    if name == "Normal"@ {
        Some(AlarmState::Normal)
    } else if name == "ThresholdExceeded"@ {
        Some(AlarmState::ThresholdExceeded)
    } else {
        None
    }
}

/// The record that a document denotes: an object with a text under `sensor_id`
/// and, under `alarm_state`, the name of an alarm state. Other members are passed
/// over. An object holds one member under each key: where the text of a record
/// gives a key more than once, the member given last is the one that the document
/// holds, and it alone counts. Such a record is read, not rejected.
pub open spec fn record_of(tree: JsonTree) -> Option<SensorStateView> {
    match (text_member(tree, "sensor_id"@), text_member(tree, "alarm_state"@)) {
        (Some(sensor_id), Some(name)) => match state_named(name) {
            Some(alarm_state) => Some(SensorStateView { sensor_id, alarm_state }),
            None => None,
        },
        _ => None,
    }
}

/// What reading a sensor's record out of a document gives: the record that the
/// document denotes, and `LoadFailed` with the sensor's id where it denotes none.
pub open spec fn document_loaded(sensor_id: Seq<char>, tree: JsonTree) -> Result<
    SensorStateView,
    StateFailure,
> {
    match record_of(tree) {
        Some(record) => Ok(record),
        None => Err(StateFailure::LoadFailed(sensor_id)),
    }
}

/// What follows the id in the text of a record: the state's name under
/// `alarm_state`, and the end of the object.
pub open spec fn record_tail(state: AlarmState) -> Seq<char> {
    ",\"alarm_state\":\""@ + state_name(state) + "\"}"@
}

/// The record that a text holds in the very form in which [`record_text`] writes
/// one: the id between quotes as [`escaped`] writes it, and one of the two tails.
/// A text in any other form holds none in this sense.
pub open spec fn written_record(text: Seq<char>) -> Option<SensorStateView> {
    let head = "{\"sensor_id\":"@;
    let start: int = (head.len() + 1) as int;
    if text.len() >= start && text.subrange(0, head.len() as int) == head && text[head.len() as int]
        == '"' {
        match unescaped_from(text, start, Seq::empty()) {
            Some((sensor_id, end)) => {
                let tail = text.subrange(end + 1, text.len() as int);
                if tail == record_tail(AlarmState::Normal) {
                    Some(SensorStateView { sensor_id, alarm_state: AlarmState::Normal })
                } else if tail == record_tail(AlarmState::ThresholdExceeded) {
                    Some(SensorStateView { sensor_id, alarm_state: AlarmState::ThresholdExceeded })
                } else {
                    None
                }
            },
            None => None,
        }
    } else {
        None
    }
}

/// The record that a text denotes: the record that it holds in the form in which
/// this library writes one, and for a text in another form the record that its
/// JSON document denotes. A text that is neither denotes none.
pub open spec fn record_denoted(text: Seq<char>) -> Option<SensorStateView> {
    match written_record(text) {
        Some(record) => Some(record),
        None => match json_of(text) {
            Some(tree) => record_of(tree),
            None => None,
        },
    }
}

/// What reading a sensor's record out of a text gives: the record that the text
/// denotes, and `LoadFailed` with the sensor's id where it denotes none.
pub open spec fn loaded(sensor_id: Seq<char>, record: Seq<char>) -> Result<
    SensorStateView,
    StateFailure,
> {
    match record_denoted(record) {
        Some(record) => Ok(record),
        None => Err(StateFailure::LoadFailed(sensor_id)),
    }
}

/// The state that the text kept for a sensor holds: that of the record that the
/// text denotes, and none where it denotes no record.
pub open spec fn recorded_state(record: Seq<char>) -> Option<AlarmState> {
    match record_denoted(record) {
        Some(record) => Some(record.alarm_state),
        None => None,
    }
}

/// The state from the run before, given the text that was kept for the sensor, if
/// any: none where no text was kept, and none where the text holds no state.
pub open spec fn state_before(record: Option<&str>) -> Option<AlarmState> {
    match record {
        Some(text) => recorded_state(text@),
        None => None,
    }
}

/// The text of a record, given the sensor's id as JSON writes it: an object with
/// the id under `sensor_id` and the state's name under `alarm_state`, without
/// blanks.
pub open spec fn record_text(quoted_id: Seq<char>, state: AlarmState) -> Seq<char> {
    "{\"sensor_id\":"@ + quoted_id + ",\"alarm_state\":\""@ + state_name(state) + "\"}"@
}

/// Where the characters of `expected` stand in `chars` from `at` on, the place
/// after them.
fn after(chars: &Vec<char>, at: usize, expected: &str) -> (r: Option<usize>)
    ensures
        match r {
            Some(end) => end == at + expected@.len() && end <= chars@.len() && chars@.subrange(
                at as int,
                end as int,
            ) == expected@,
            None => !(at + expected@.len() <= chars@.len() && chars@.subrange(
                at as int,
                at + expected@.len(),
            ) == expected@),
        },
{
    let wanted = chars_of(expected);
    if at > chars.len() || wanted.len() > chars.len() - at {
        return None;
    }
    let mut i: usize = 0;
    while i < wanted.len()
        invariant
            i <= wanted@.len(),
            wanted@ == expected@,
            at + wanted@.len() <= chars@.len(),
            chars@.len() <= usize::MAX,
            forall|k: int| 0 <= k < i ==> chars@[at + k] == wanted@[k],
        decreases wanted@.len() - i,
    {
        if chars[at + i] != wanted[i] {
            assert(chars@.subrange(at as int, at + expected@.len())[i as int] == chars@[at + i]);
            return None;
        }
        i += 1;
    }
    assert(chars@.subrange(at as int, at + expected@.len()) =~= expected@);
    Some(at + wanted.len())
}

/// Whether what stands in `chars` from `at` on is the tail of a record with the
/// given state, and nothing more.
fn ends_with_tail(chars: &Vec<char>, at: usize, state: AlarmState) -> (r: bool)
    ensures
        r == (at <= chars@.len() && chars@.subrange(at as int, chars@.len() as int) == record_tail(
            state,
        )),
{
    let mut tail = String::from_str(",\"alarm_state\":\"");
    tail.append(state.name());
    tail.append("\"}");
    match after(chars, at, tail.as_str()) {
        Some(end) => end == chars.len(),
        None => false,
    }
}

/// A record is read back from its text as it was written: the text that
/// [`record_text`] makes of an id and a state holds, in the sense of
/// [`written_record`], that id and that state.
pub proof fn lemma_written_record_reads_back(record: SensorStateView)
    ensures
        written_record(record_text(json_quoted(record.sensor_id), record.alarm_state)) == Some(
            record,
        ),
{
    let head = "{\"sensor_id\":"@;
    let quote = seq!['"'];
    let inner = escaped(record.sensor_id);
    let tail = record_tail(record.alarm_state);
    let text = record_text(json_quoted(record.sensor_id), record.alarm_state);
    let start: int = (head.len() + 1) as int;
    let end: int = (start + inner.len()) as int;
    assert(text =~= head + quote + inner + quote + tail);
    assert(text.len() == head.len() + 1 + inner.len() + 1 + tail.len());
    assert(text.subrange(0, head.len() as int) =~= head);
    assert(text[head.len() as int] == '"');
    assert(text.subrange(start, end) =~= inner);
    assert(text[end] == '"');
    lemma_escaped_reads_back(text, start, Seq::empty(), record.sensor_id);
    assert(Seq::<char>::empty() + record.sensor_id =~= record.sensor_id);
    assert(text.subrange(end + 1, text.len() as int) =~= tail);
    lemma_state_names_round_trip(record.alarm_state);
    reveal_strlit("Normal");
    reveal_strlit("ThresholdExceeded");
    assert(record_tail(AlarmState::Normal).len() != record_tail(AlarmState::ThresholdExceeded).len());
}

/// What is saved is what is loaded: the text that [`SensorState::save`] gives for
/// a record is loaded as that very record, whichever sensor is asked for, and the
/// state that it holds is the record's.
pub proof fn lemma_saved_record_loads(asked: Seq<char>, record: SensorStateView)
    ensures
        loaded(asked, record_text(json_quoted(record.sensor_id), record.alarm_state)) == Ok::<
            SensorStateView,
            StateFailure,
        >(record),
        recorded_state(record_text(json_quoted(record.sensor_id), record.alarm_state)) == Some(
            record.alarm_state,
        ),
{
    lemma_written_record_reads_back(record);
}

impl AlarmState {
    /// The name under which a record holds the state.
    pub fn name(&self) -> (r: &'static str)
        ensures
            r@ == state_name(*self),
    {
        match self {
            AlarmState::Normal => "Normal",
            AlarmState::ThresholdExceeded => "ThresholdExceeded",
        }
    }

    /// The alarm state that a name denotes, where it denotes one.
    pub fn from_name(name: &str) -> (r: Option<AlarmState>)
        ensures
            r == state_named(name@),
    {
        if same_text(name, "Normal") {
            Some(AlarmState::Normal)
        } else if same_text(name, "ThresholdExceeded") {
            Some(AlarmState::ThresholdExceeded)
        } else {
            None
        }
    }
}

impl SensorState {
    /// Reads the record of a sensor out of a parsed document.
    pub fn from_document(sensor_id: &SensorId, document: &serde_json::Value) -> (r: Result<
        SensorState,
        StateError,
    >)
        ensures
            result_view(r) == document_loaded(sensor_id@, json_tree(*document)),
    {
        let found = match (text_at(document, "sensor_id"), text_at(document, "alarm_state")) {
            (Some(id), Some(name)) => match AlarmState::from_name(name.as_str()) {
                Some(alarm_state) => Some(SensorState { sensor_id: id, alarm_state }),
                None => None,
            },
            _ => None,
        };
        match found {
            Some(state) => Ok(state),
            None => Err(StateError::LoadFailed(sensor_id.clone())),
        }
    }

    /// Reads a record out of a text that holds it in the very form in which
    /// [`SensorState::save`] writes one. A text in any other form gives nothing.
    pub fn read_written(text: &str) -> (r: Option<SensorState>)
        ensures
            match written_record(text@) {
                Some(record) => r matches Some(found) && found@ == record,
                None => r is None,
            },
    {
        let chars = chars_of(text);
        let start = match after(&chars, 0, "{\"sensor_id\":") {
            Some(start) => start,
            None => {
                return None;
            },
        };
        if start >= chars.len() || chars[start] != '"' {
            return None;
        }
        let (sensor_id, end) = match read_escaped(&chars, start + 1) {
            Some(read) => read,
            None => {
                return None;
            },
        };
        if ends_with_tail(&chars, end + 1, AlarmState::Normal) {
            Some(SensorState { sensor_id, alarm_state: AlarmState::Normal })
        } else if ends_with_tail(&chars, end + 1, AlarmState::ThresholdExceeded) {
            Some(SensorState { sensor_id, alarm_state: AlarmState::ThresholdExceeded })
        } else {
            None
        }
    }

    /// Reads the record of a sensor out of the text that was kept for it. A text
    /// in the form in which [`SensorState::save`] writes a record gives the record
    /// it was written from. Any other text is read as JSON: an object with a text
    /// under `sensor_id` and, under `alarm_state`, `Normal` or `ThresholdExceeded`.
    /// A text that is neither is a `LoadFailed` with the id of the sensor asked
    /// for. The id in the record is handed back as it stands.
    pub fn load(sensor_id: &SensorId, record: &str) -> (r: Result<SensorState, StateError>)
        ensures
            result_view(r) == loaded(sensor_id@, record@),
    {
        match SensorState::read_written(record) {
            Some(state) => Ok(state),
            None => match parse(record) {
                Some(document) => SensorState::from_document(sensor_id, &document),
                None => Err(StateError::LoadFailed(sensor_id.clone())),
            },
        }
    }

    /// The text of the record, given the sensor's id as JSON writes it.
    pub fn record(&self, quoted_id: &str) -> (r: String)
        ensures
            r@ == record_text(quoted_id@, self.alarm_state),
    {
        let mut text = String::from_str("{\"sensor_id\":");
        text.append(quoted_id);
        text.append(",\"alarm_state\":\"");
        text.append(self.alarm_state.name());
        text.append("\"}");
        text
    }

    /// The text to keep for the sensor: its record as a JSON object, the id as
    /// JSON writes a text. This never fails; a failure to keep the text is the
    /// caller's to report.
    pub fn save(&self) -> (r: Result<String, StateError>)
        ensures
            r matches Ok(text) && text@ == record_text(
                json_quoted(self.sensor_id@),
                self.alarm_state,
            ),
    {
        match quote(self.sensor_id.as_str()) {
            Some(quoted_id) => Ok(self.record(quoted_id.as_str())),
            None => Err(StateError::SaveFailed(self.sensor_id.clone())),
        }
    }
}

/// The state from the run before, given the text that was kept for the sensor, if
/// any. A text that is missing and a text that holds no record are the same: no
/// state from before.
pub fn prior_from_record(sensor_id: &SensorId, record: Option<&str>) -> (r: Option<AlarmState>)
    ensures
        r == state_before(record),
{
    match record {
        Some(text) => match SensorState::load(sensor_id, text) {
            Ok(state) => Some(state.alarm_state),
            Err(_) => None,
        },
        None => None,
    }
}

/// The name of an alarm state denotes that state, and the two names differ.
pub proof fn lemma_state_names_round_trip(state: AlarmState)
    ensures
        state_named(state_name(state)) == Some(state),
        state_name(AlarmState::Normal) != state_name(AlarmState::ThresholdExceeded),
{
    reveal_strlit("Normal");
    reveal_strlit("ThresholdExceeded");
    assert("Normal"@.len() == 6);
    assert("ThresholdExceeded"@.len() == 17);
}

/// The name of the file that holds the record of a sensor: the sensor's id with
/// the ending `.json`.
pub fn file_name(sensor_id: &SensorId) -> (r: String)
    ensures
        r@ == sensor_id@ + ".json"@,
{
    let mut name = sensor_id.clone();
    name.append(".json");
    name
}

/// The alarm states that a list of records holds, by sensor id; of two records
/// with one id the later counts.
spec fn states_of(records: Seq<SensorState>) -> Map<Seq<char>, AlarmState>
    decreases records.len(),
{
    if records.len() == 0 {
        Map::empty()
    } else {
        states_of(records.drop_last()).insert(records.last().sensor_id@, records.last().alarm_state)
    }
}

/// No two records of the list are of the same sensor.
spec fn distinct_ids(records: Seq<SensorState>) -> bool {
    forall|i: int, j: int|
        0 <= i < j < records.len() ==> (#[trigger] records[i]).sensor_id@ != (
        #[trigger] records[j]).sensor_id@
}

/// The states of a list are those of its records: a sensor has a state exactly
/// where a record is of it, and where no two records are of one sensor, each
/// record's state is its sensor's.
proof fn lemma_states_of_records(records: Seq<SensorState>)
    ensures
        forall|id: Seq<char>|
            states_of(records).contains_key(id) <==> exists|i: int|
                0 <= i < records.len() && (#[trigger] records[i]).sensor_id@ == id,
        distinct_ids(records) ==> forall|i: int|
            0 <= i < records.len() ==> states_of(records)[(#[trigger] records[i]).sensor_id@]
                == records[i].alarm_state,
    decreases records.len(),
{
    if records.len() > 0 {
        let front = records.drop_last();
        let last = records.last();
        lemma_states_of_records(front);
        assert forall|id: Seq<char>| states_of(records).contains_key(id) implies exists|i: int|
            0 <= i < records.len() && (#[trigger] records[i]).sensor_id@ == id by {
            if id == last.sensor_id@ {
                assert(records[records.len() - 1].sensor_id@ == id);
            } else {
                let i = choose|i: int| 0 <= i < front.len() && (#[trigger] front[i]).sensor_id@ == id;
                assert(records[i].sensor_id@ == id);
            }
        }
        assert forall|id: Seq<char>|
            (exists|i: int| 0 <= i < records.len() && (#[trigger] records[i]).sensor_id@ == id)
            implies states_of(records).contains_key(id) by {
            let i = choose|i: int| 0 <= i < records.len() && (#[trigger] records[i]).sensor_id@ == id;
            if i < front.len() {
                assert(front[i].sensor_id@ == id);
            }
        }
        if distinct_ids(records) {
            assert(distinct_ids(front)) by {
                assert forall|i: int, j: int| 0 <= i < j < front.len() implies (#[trigger] front[i]).sensor_id@
                    != (#[trigger] front[j]).sensor_id@ by {
                    assert(records[i].sensor_id@ != records[j].sensor_id@);
                }
            }
            assert forall|i: int| 0 <= i < records.len() implies states_of(records)[(
            #[trigger] records[i]).sensor_id@] == records[i].alarm_state by {
                if i < front.len() {
                    assert(records[i].sensor_id@ != records[records.len() - 1].sensor_id@);
                    assert(front[i] == records[i]);
                }
            }
        }
    }
}

/// Replacing the state in one record changes the state of its sensor and of no
/// other.
proof fn lemma_states_after_update(records: Seq<SensorState>, at: int, state: AlarmState)
    requires
        0 <= at < records.len(),
        distinct_ids(records),
    ensures
        distinct_ids(
            records.update(at, SensorState { sensor_id: records[at].sensor_id, alarm_state: state }),
        ),
        states_of(
            records.update(at, SensorState { sensor_id: records[at].sensor_id, alarm_state: state }),
        ) == states_of(records).insert(records[at].sensor_id@, state),
{
    let id = records[at].sensor_id;
    let after = records.update(at, SensorState { sensor_id: id, alarm_state: state });
    assert(distinct_ids(after)) by {
        assert forall|i: int, j: int| 0 <= i < j < after.len() implies (#[trigger] after[i]).sensor_id@
            != (#[trigger] after[j]).sensor_id@ by {
            assert(records[i].sensor_id@ != records[j].sensor_id@);
        }
    }
    lemma_states_of_records(records);
    lemma_states_of_records(after);
    let expected = states_of(records).insert(id@, state);
    assert forall|key: Seq<char>| states_of(after).contains_key(key) <==> expected.contains_key(
        key,
    ) by {
        if states_of(after).contains_key(key) {
            let i = choose|i: int| 0 <= i < after.len() && (#[trigger] after[i]).sensor_id@ == key;
            assert(records[i].sensor_id@ == key);
        }
        if expected.contains_key(key) {
            if key == id@ {
                assert(after[at].sensor_id@ == key);
            } else {
                let i = choose|i: int|
                    0 <= i < records.len() && (#[trigger] records[i]).sensor_id@ == key;
                assert(after[i].sensor_id@ == key);
            }
        }
    }
    assert forall|key: Seq<char>| states_of(after).contains_key(key) implies states_of(after)[key]
        == expected[key] by {
        let i = choose|i: int| 0 <= i < after.len() && (#[trigger] after[i]).sensor_id@ == key;
        assert(states_of(after)[after[i].sensor_id@] == after[i].alarm_state);
        if i != at {
            assert(records[i].sensor_id@ == key);
            assert(states_of(records)[records[i].sensor_id@] == records[i].alarm_state);
            assert(records[i].sensor_id@ != records[at].sensor_id@);
        }
    }
    assert(states_of(after) =~= expected);
}

/// The state that is held for a sensor among the states by sensor id, if any.
pub open spec fn state_held(states: Map<Seq<char>, AlarmState>, sensor_id: Seq<char>) -> Option<
    AlarmState,
> {
    if states.contains_key(sensor_id) {
        Some(states[sensor_id])
    } else {
        None
    }
}

/// The alarm states of the sensors, by sensor id: at most one for each sensor.
#[derive(Debug)]
pub struct SensorStates {
    records: Vec<SensorState>,
}

impl View for SensorStates {
    type V = Map<Seq<char>, AlarmState>;

    closed spec fn view(&self) -> Map<Seq<char>, AlarmState> {
        states_of(self.records@)
    }
}

impl SensorStates {
    #[verifier::type_invariant]
    closed spec fn one_record_each(&self) -> bool {
        distinct_ids(self.records@)
    }

    /// No states at all.
    pub fn new() -> (r: SensorStates)
        ensures
            r@ == Map::<Seq<char>, AlarmState>::empty(),
    {
        SensorStates { records: Vec::new() }
    }

    fn position(&self, sensor_id: &str) -> (r: Option<usize>)
        ensures
            match r {
                Some(at) => at < self.records@.len() && self.records@[at as int].sensor_id@
                    == sensor_id@,
                None => forall|i: int|
                    0 <= i < self.records@.len() ==> (#[trigger] self.records@[i]).sensor_id@
                        != sensor_id@,
            },
    {
        let mut i: usize = 0;
        while i < self.records.len()
            invariant
                i <= self.records@.len(),
                forall|j: int| 0 <= j < i ==> (#[trigger] self.records@[j]).sensor_id@ != sensor_id@,
            decreases self.records@.len() - i,
        {
            if same_text(self.records[i].sensor_id.as_str(), sensor_id) {
                return Some(i);
            }
            i += 1;
        }
        None
    }

    /// The state that is held for a sensor, if any.
    pub fn get(&self, sensor_id: &str) -> (r: Option<AlarmState>)
        ensures
            r == state_held(self@, sensor_id@),
    {
        proof {
            use_type_invariant(self);
            lemma_states_of_records(self.records@);
        }
        match self.position(sensor_id) {
            Some(at) => Some(self.records[at].alarm_state),
            None => None,
        }
    }

    /// Takes up what was kept for a sensor: where a text was kept and holds a
    /// state, that state is held for the sensor from now on. Where no text was kept,
    /// or the text holds no state, nothing changes: the sensor is then one that
    /// was never measured.
    pub fn restore(&mut self, sensor_id: SensorId, record: Option<&str>)
        ensures
            final(self)@ == match state_before(record) {
                Some(alarm_state) => old(self)@.insert(sensor_id@, alarm_state),
                None => old(self)@,
            },
    {
        match prior_from_record(&sensor_id, record) {
            Some(alarm_state) => self.insert(sensor_id, alarm_state),
            None => {},
        }
    }

    /// Holds a state for a sensor, in place of the one held before if there was
    /// one. The states of all other sensors stay.
    pub fn insert(&mut self, sensor_id: SensorId, alarm_state: AlarmState)
        ensures
            final(self)@ == old(self)@.insert(sensor_id@, alarm_state),
    {
        proof {
            use_type_invariant(&*self);
            lemma_states_of_records(self.records@);
        }
        let found = self.position(sensor_id.as_str());
        let ghost before = self.records@;
        let mut records: Vec<SensorState> = Vec::new();
        std::mem::swap(&mut self.records, &mut records);
        match found {
            Some(at) => {
                proof {
                    lemma_states_after_update(before, at as int, alarm_state);
                }
                let id = records[at].sensor_id.clone();
                records.set(at, SensorState { sensor_id: id, alarm_state });
            },
            None => {
                records.push(SensorState { sensor_id, alarm_state });
                proof {
                    assert(records@.drop_last() =~= before);
                    assert forall|i: int, j: int| 0 <= i < j < records@.len() implies (
                    #[trigger] records@[i]).sensor_id@ != (#[trigger] records@[j]).sensor_id@ by {
                        assert(records@[i] == before[i]);
                        if j < before.len() {
                            assert(records@[j] == before[j]);
                        }
                    }
                }
            },
        }
        std::mem::swap(&mut self.records, &mut records);
    }
}

/// What was last held for a sensor is what is found for it, unchanged, and
/// holding it once more changes nothing.
pub proof fn lemma_insert_then_get(
    states: Map<Seq<char>, AlarmState>,
    sensor_id: Seq<char>,
    alarm_state: AlarmState,
)
    ensures
        state_held(states.insert(sensor_id, alarm_state), sensor_id) == Some(alarm_state),
        states.insert(sensor_id, alarm_state).insert(sensor_id, alarm_state) == states.insert(
            sensor_id,
            alarm_state,
        ),
{
    assert(states.insert(sensor_id, alarm_state).insert(sensor_id, alarm_state) =~= states.insert(
        sensor_id,
        alarm_state,
    ));
}

/// Holding a state for one sensor changes what is found for no other.
pub proof fn lemma_insert_leaves_others(
    states: Map<Seq<char>, AlarmState>,
    sensor_id: Seq<char>,
    alarm_state: AlarmState,
    other: Seq<char>,
)
    requires
        other != sensor_id,
    ensures
        state_held(states.insert(sensor_id, alarm_state), other) == state_held(states, other),
{
}

/// Of two states held for one sensor, one after the other, the second is found.
pub proof fn lemma_last_insert_wins(
    states: Map<Seq<char>, AlarmState>,
    sensor_id: Seq<char>,
    first: AlarmState,
    second: AlarmState,
)
    ensures
        states.insert(sensor_id, first).insert(sensor_id, second) == states.insert(
            sensor_id,
            second,
        ),
{
    assert(states.insert(sensor_id, first).insert(sensor_id, second) =~= states.insert(
        sensor_id,
        second,
    ));
}

} // verus!
