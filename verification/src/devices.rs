//! Camera devices as the user sees them: the label each device is listed
//! under, the index read back from a label, and the sorting of a backend's
//! failures into "busy" and the rest.

use crate::error::{prefixed, CaptureError, CaptureFailure};
use crate::text::{
    all_digits, chars_of, contains, contains_text, decimal, decimal_string, find_first_from,
    find_last, first_index_of, is_digit, last_index_of, lemma_decimal_digits,
    lemma_first_index_of, lemma_first_index_skips, lemma_last_index_of, lemma_last_index_skips,
    lemma_parse_decimal, parse_u32, parsed_u32,
};
use vstd::prelude::*;

verus! {

/// How a backend names a device: by number or by text.
#[derive(Debug, Clone, PartialEq, Eq)]
pub enum DeviceIndex {
    Number(u32),
    Name(String),
}

/// The model of a `DeviceIndex`.
pub enum DeviceIndexView {
    Number(u32),
    Name(Seq<char>),
}

impl View for DeviceIndex {
    type V = DeviceIndexView;

    open spec fn view(&self) -> DeviceIndexView {
        match self {
            DeviceIndex::Number(n) => DeviceIndexView::Number(*n),
            DeviceIndex::Name(text) => DeviceIndexView::Name(text@),
        }
    }
}

/// A device that a backend reported.
#[derive(Debug, Clone, PartialEq, Eq)]
pub struct DeviceInfo {
    /// The name meant for people.
    pub name: String,
    /// The backend's index of the device.
    pub index: DeviceIndex,
}

/// The model of a `DeviceInfo`.
pub struct DeviceInfoView {
    pub name: Seq<char>,
    pub index: DeviceIndexView,
}

impl View for DeviceInfo {
    type V = DeviceInfoView;

    open spec fn view(&self) -> DeviceInfoView {
        DeviceInfoView { name: self.name@, index: self.index@ }
    }
}

/// An index as it is written in a label: a number in decimal, a text as it
/// is.
pub open spec fn index_text(index: DeviceIndexView) -> Seq<char> {
    match index {
        DeviceIndexView::Number(n) => decimal(n as nat),
        DeviceIndexView::Name(text) => text,
    }
}

/// The label of a device: `<name> (<index>)`.
pub open spec fn label(device: DeviceInfoView) -> Seq<char> {
    device.name + " ("@ + index_text(device.index) + ")"@
}

/// The one label listed where the backend reports no device.
pub open spec fn no_devices_label() -> Seq<char> {
    "No cameras detected"@
}

/// The one label listed where the backend fails.
pub open spec fn query_failed_label() -> Seq<char> {
    "Error detecting cameras"@
}

/// The label of `device`.
pub fn device_label(device: &DeviceInfo) -> (text: String)
    ensures
        text@ == label(device@),
{
    let mut text = device.name.clone();
    text.append(" (");
    match &device.index {
        DeviceIndex::Number(n) => {
            let digits = decimal_string(*n as u64);
            text.append(digits.as_str());
        },
        DeviceIndex::Name(name) => {
            text.append(name.as_str());
        },
    }
    text.append(")");
    text
}

/// The list shown for what a backend answered to a query for its devices:
/// one label for each device, in the backend's order; where there is no
/// device, or the backend failed, one label that says so. The list is never
/// empty and the query's failure is never passed on.
pub fn device_labels(found: Result<Vec<DeviceInfo>, String>) -> (labels: Vec<String>)
    ensures
        match found {
            Ok(devices) => if devices.len() == 0 {
                labels.len() == 1 && labels[0]@ == no_devices_label()
            } else {
                labels.len() == devices.len() && forall|i: int|
                    0 <= i < devices.len() ==> (#[trigger] labels[i])@ == label(devices[i]@)
            },
            Err(_) => labels.len() == 1 && labels[0]@ == query_failed_label(),
        },
{
    let mut labels: Vec<String> = Vec::new();
    match found {
        Ok(devices) => {
            if devices.len() == 0 {
                labels.push(String::from_str("No cameras detected"));
            } else {
                let mut i: usize = 0;
                while i < devices.len()
                    invariant
                        i <= devices.len(),
                        labels.len() == i,
                        forall|k: int| 0 <= k < i ==> (#[trigger] labels[k])@ == label(devices[k]@),
                    decreases devices.len() - i,
                {
                    labels.push(device_label(&devices[i]));
                    i += 1;
                }
            }
        },
        Err(_) => {
            labels.push(String::from_str("Error detecting cameras"));
        },
    }
    labels
}

/// What stands in a label between its last `(` and the `)` that follows, or
/// the end of the label where none follows; none where there is no `(`.
pub open spec fn index_field(text: Seq<char>) -> Option<Seq<char>> {
    match last_index_of(text, '(') {
        Some(open) => {
            let rest = text.skip(open + 1);
            match first_index_of(rest, ')') {
                Some(close) => Some(rest.take(close)),
                None => Some(rest),
            }
        },
        None => None,
    }
}

/// The device index that a label stands for: the number in its index field,
/// and 0 where there is no such field or it holds no `u32`.
pub open spec fn label_index(text: Seq<char>) -> u32 {
    match index_field(text) {
        Some(field) => match parsed_u32(field) {
            Some(n) => n,
            None => 0,
        },
        None => 0,
    }
}

/// Reads the device index from a label.
pub fn device_index(text: &str) -> (index: u32)
    ensures
        index == label_index(text@),
{
    let chars = chars_of(text);
    proof {
        lemma_last_index_of(text@, '(');
    }
    match find_last(&chars, '(') {
        Some(open) => {
            let ghost rest = text@.skip(open + 1);
            proof {
                lemma_first_index_of(rest, ')');
            }
            let close = match find_first_from(&chars, ')', open + 1) {
                Some(close) => {
                    assert(rest.take(close - (open + 1)) =~= chars@.subrange(
                        open + 1,
                        close as int,
                    ));
                    close
                },
                None => {
                    assert(rest =~= chars@.subrange(open + 1, chars.len() as int));
                    chars.len()
                },
            };
            match parse_u32(&chars, open + 1, close) {
                Some(n) => n,
                None => 0,
            }
        },
        None => 0,
    }
}

/// A label that stands for no device: one that says that there are none, or
/// that the query failed.
pub open spec fn is_sentinel(text: Seq<char>) -> bool {
    contains_text(text, "No cameras"@) || contains_text(text, "Error"@)
}

/// The message for a label that stands for no device.
pub open spec fn no_camera_text() -> Seq<char> {
    "No valid camera available"@
}

/// The device that a label picks: its index, unless the label stands for no
/// device.
pub fn resolve_device(text: &str) -> (picked: Result<u32, CaptureError>)
    ensures
        match picked {
            Ok(index) => !is_sentinel(text@) && index == label_index(text@),
            Err(error) => is_sentinel(text@) && error@ == CaptureFailure::Device(
                no_camera_text(),
            ),
        },
{
    if contains(text, "No cameras") || contains(text, "Error") {
        Err(CaptureError::Device(String::from_str("No valid camera available")))
    } else {
        Ok(device_index(text))
    }
}

/// A backend's message that tells of a device that someone else holds.
pub open spec fn tells_busy(detail: Seq<char>) -> bool {
    contains_text(detail, "lockForConfiguration"@)
}

/// The error for a backend's failure: "busy" where its message tells so,
/// else a device error whose message is `context` followed by the backend's.
pub open spec fn failure(context: Seq<char>, detail: Seq<char>) -> CaptureFailure {
    if tells_busy(detail) {
        CaptureFailure::Busy
    } else {
        CaptureFailure::Device(context + detail)
    }
}

/// Sorts a backend's failure into "busy" and the rest.
pub fn classify_failure(context: &str, detail: &str) -> (error: CaptureError)
    ensures
        error@ == failure(context@, detail@),
{
    if contains(detail, "lockForConfiguration") {
        CaptureError::Busy
    } else {
        CaptureError::Device(prefixed(context, detail))
    }
}

/// Reading the index back from the label of a device with a numeric index
/// gives that index, whatever the device is called.
pub proof fn lemma_label_round_trip(name: Seq<char>, n: u32)
    ensures
        label_index(label(DeviceInfoView { name, index: DeviceIndexView::Number(n) })) == n,
{
    reveal_strlit(" (");
    reveal_strlit(")");
    let digits = decimal(n as nat);
    lemma_decimal_digits(n as nat);
    lemma_parse_decimal(n);
    let text = label(DeviceInfoView { name, index: DeviceIndexView::Number(n) });
    let head = name + " ("@;
    let tail = digits + ")"@;
    assert(text =~= head + tail);
    assert forall|i: int| 0 <= i < tail.len() implies tail[i] != '(' by {
        if i < digits.len() {
            assert(is_digit(digits[i]));
        }
    }
    lemma_last_index_skips(head, tail, '(');
    assert(head.last() == '(');
    assert(last_index_of(text, '(') == Some(head.len() - 1));
    let rest = text.skip(head.len() as int);
    assert(rest =~= tail);
    assert forall|i: int| 0 <= i < digits.len() implies digits[i] != ')' by {
        assert(is_digit(digits[i]));
    }
    lemma_first_index_skips(digits, ")"@, ')');
    assert(")"@.first() == ')');
    assert(first_index_of(tail, ')') == Some(digits.len() as int));
    assert(tail.take(digits.len() as int) =~= digits);
    assert(all_digits(digits));
}

} // verus!
