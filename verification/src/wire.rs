use vstd::prelude::*;
use crate::json::{
    items_of, json_of, json_tree, list_member, member, parse, text_at, text_member, JsonTree,
};
use crate::measurement::{result_view, DecodeError, DecodeFailure};
use crate::text::{decode_text, text_of_bytes};

verus! {

/// One entry of a payload, as the sensor wrote it.
#[derive(Debug, PartialEq)]
pub struct DataValue {
    pub value_type: String,
    pub value: String,
}

/// A payload, as the sensor wrote it.
#[derive(Debug, PartialEq)]
pub struct Measurement {
    pub software_version: String,
    pub data_values: Vec<DataValue>,
}

/// A [`DataValue`] with its texts as sequences.
pub struct DataValueView {
    pub value_type: Seq<char>,
    pub value: Seq<char>,
}

/// A [`Measurement`] with its text and its entries as sequences.
pub struct MeasurementView {
    pub software_version: Seq<char>,
    pub data_values: Seq<DataValueView>,
}

impl View for DataValue {
    type V = DataValueView;

    open spec fn view(&self) -> DataValueView {
        DataValueView { value_type: self.value_type@, value: self.value@ }
    }
}

impl View for Measurement {
    type V = MeasurementView;

    open spec fn view(&self) -> MeasurementView {
        MeasurementView {
            software_version: self.software_version@,
            data_values: Seq::new(self.data_values@.len(), |i: int| self.data_values@[i]@),
        }
    }
}

/// The entry that a document denotes: an object with a text under `value_type`
/// and a text under `value`. Other members are passed over.
pub open spec fn entry_of(tree: JsonTree) -> Option<DataValueView> {
    match (text_member(tree, "value_type"@), text_member(tree, "value"@)) {
        (Some(value_type), Some(value)) => Some(DataValueView { value_type, value }),
        _ => None,
    }
}

/// The entries that a list of documents denotes, in the list's order, where each
/// of them denotes one.
pub open spec fn entries_of(items: Seq<JsonTree>) -> Option<Seq<DataValueView>> {
    if forall|i: int| 0 <= i < items.len() ==> (#[trigger] entry_of(items[i])) is Some {
        Some(Seq::new(items.len(), |i: int| entry_of(items[i])->0))
    } else {
        None
    }
}

/// The payload that a document denotes: an object with a text under
/// `software_version` and a list of entries under `sensordatavalues`. Other
/// members are passed over. An object holds one member under each key: where the
/// text of a payload gives a key more than once, the member given last is the one
/// that the document holds, and it alone counts, in the payload and in each of
/// its entries. Such a payload is decoded, not rejected.
pub open spec fn payload_of(tree: JsonTree) -> Option<MeasurementView> {
    match (text_member(tree, "software_version"@), list_member(tree, "sensordatavalues"@)) {
        (Some(software_version), Some(items)) => match entries_of(items) {
            Some(data_values) => Some(MeasurementView { software_version, data_values }),
            None => None,
        },
        _ => None,
    }
}

/// What decoding a text gives: the payload that its document denotes, and
/// `InvalidPayload` where the text is no JSON or its document is no payload.
pub open spec fn decoded(json: Seq<char>) -> Result<MeasurementView, DecodeFailure> {
    match json_of(json) {
        Some(tree) => document_decoded(tree),
        None => Err(DecodeFailure::InvalidPayload),
    }
}

/// What decoding a document gives: the payload that it denotes, and
/// `InvalidPayload` where it denotes none.
pub open spec fn document_decoded(tree: JsonTree) -> Result<MeasurementView, DecodeFailure> {
    match payload_of(tree) {
        Some(payload) => Ok(payload),
        None => Err(DecodeFailure::InvalidPayload),
    }
}

/// What decoding bytes gives: what decoding their text gives, and `InvalidPayload`
/// where they are no UTF-8.
pub open spec fn bytes_decoded(body: Seq<u8>) -> Result<MeasurementView, DecodeFailure> {
    match text_of_bytes(body) {
        Some(text) => decoded(text),
        None => Err(DecodeFailure::InvalidPayload),
    }
}

fn entry_from(item: &serde_json::Value) -> (r: Option<DataValue>)
    ensures
        match entry_of(json_tree(*item)) {
            Some(entry) => r matches Some(found) && found@ == entry,
            None => r is None,
        },
{
    let value_type = text_at(item, "value_type");
    let value = text_at(item, "value");
    match (value_type, value) {
        (Some(value_type), Some(value)) => Some(DataValue { value_type, value }),
        _ => None,
    }
}

fn entries_from(value: &serde_json::Value, key: &str) -> (r: Option<Vec<DataValue>>)
    ensures
        match list_member(json_tree(*value), key@) {
            Some(items) => match entries_of(items) {
                Some(entries) => r matches Some(found) && found@.len() == entries.len()
                    && forall|i: int| 0 <= i < entries.len() ==> (#[trigger] found@[i])@ == entries[i],
                None => r is None,
            },
            None => r is None,
        },
{
    let found = match member(value, key) {
        Some(found) => found,
        None => {
            return None;
        },
    };
    let items = match items_of(found) {
        Some(items) => items,
        None => {
            return None;
        },
    };
    let ghost trees = list_member(json_tree(*value), key@)->0;
    let mut entries: Vec<DataValue> = Vec::new();
    let mut i: usize = 0;
    while i < items.len()
        invariant
            i <= items@.len(),
            items@.len() == trees.len(),
            list_member(json_tree(*value), key@) == Some(trees),
            forall|j: int| 0 <= j < trees.len() ==> json_tree(#[trigger] items@[j]) == trees[j],
            entries@.len() == i,
            forall|j: int| 0 <= j < i ==> (#[trigger] entry_of(trees[j])) is Some,
            forall|j: int| 0 <= j < i ==> (#[trigger] entries@[j])@ == entry_of(trees[j])->0,
        decreases items@.len() - i,
    {
        match entry_from(&items[i]) {
            Some(entry) => {
                entries.push(entry);
            },
            None => {
                assert(entry_of(trees[i as int]) is None);
                return None;
            },
        }
        i += 1;
    }
    Some(entries)
}

/// Reads a payload out of a parsed document.
pub fn from_document(document: &serde_json::Value) -> (r: Result<Measurement, DecodeError>)
    ensures
        result_view(r) == document_decoded(json_tree(*document)),
{
    let software_version = match text_at(document, "software_version") {
        Some(text) => text,
        None => {
            return Err(DecodeError::InvalidPayload);
        },
    };
    let data_values = match entries_from(document, "sensordatavalues") {
        Some(entries) => entries,
        None => {
            return Err(DecodeError::InvalidPayload);
        },
    };
    let found = Measurement { software_version, data_values };
    assert(found@.data_values =~= payload_of(json_tree(*document))->0.data_values);
    Ok(found)
}

/// Decodes the text of a payload: a JSON object with a text under
/// `software_version` and, under `sensordatavalues`, a list of objects that each
/// have a text under `value_type` and a text under `value`. The entries keep the
/// order of the list. Anything else is an `InvalidPayload`.
pub fn decode_json_to_measurement(json: &str) -> (r: Result<Measurement, DecodeError>)
    ensures
        result_view(r) == decoded(json@),
{
    match parse(json) {
        Some(document) => from_document(&document),
        None => Err(DecodeError::InvalidPayload),
    }
}

/// Decodes the bytes of a payload: they must be UTF-8 and their text a payload.
pub fn decode_payload(body: &[u8]) -> (r: Result<Measurement, DecodeError>)
    ensures
        result_view(r) == bytes_decoded(body@),
{
    match decode_text(body) {
        Some(text) => decode_json_to_measurement(text),
        None => Err(DecodeError::InvalidPayload),
    }
}

/// Decoding is a function of the text: two decodings of one text give payloads
/// with the same content, or both fail.
pub proof fn lemma_payload_decoding_is_deterministic(
    json: Seq<char>,
    first: Result<Measurement, DecodeError>,
    second: Result<Measurement, DecodeError>,
)
    requires
        result_view(first) == decoded(json),
        result_view(second) == decoded(json),
    ensures
        match (first, second) {
            (Ok(a), Ok(b)) => a@ == b@,
            (Err(a), Err(b)) => a == b && a == DecodeError::InvalidPayload,
            _ => false,
        },
{
}

/// A decoded payload holds one entry for each item of the document's list, in the
/// list's order.
pub proof fn lemma_entries_keep_their_order(tree: JsonTree, i: int)
    requires
        payload_of(tree) is Some,
        0 <= i < payload_of(tree)->0.data_values.len(),
    ensures
        list_member(tree, "sensordatavalues"@) matches Some(items) && items.len() == payload_of(
            tree,
        )->0.data_values.len() && entry_of(items[i]) == Some(payload_of(tree)->0.data_values[i]),
{
}

} // verus!
