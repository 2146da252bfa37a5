//! Which of the scopes found is opened.

use vstd::prelude::*;
use crate::text::{
    contains, has_prefix, join, joined, occurs_at, occurs_in, same_ignoring_case, same_in_any_case,
    starts_with, string_texts, to_uppercase, upper_char, uppercase,
};

verus! {

/// A scope that was found.
pub struct DeviceInfo {
    pub serial: String,
    /// The model, such as `2204A`.
    pub variant: String,
}

/// Why no scope can be opened.
#[derive(Debug, PartialEq, Eq)]
pub enum DeviceError {
    /// The search found nothing, without an error.
    NoneDetected,
    /// The search found nothing; the text says what went wrong.
    SearchFailed(String),
    /// No scope has the serial number; the second text lists those that were found.
    SerialNotFound(String, String),
    /// There is none to choose from.
    NothingToChoose,
    /// No scope was found, of any kind.
    NoneFound,
    /// The scope has no analog channel.
    NoChannels,
}

/// Why no scope can be opened, with the texts as characters.
pub enum DeviceFault {
    NoneDetected,
    SearchFailed(Seq<char>),
    SerialNotFound(Seq<char>, Seq<char>),
    NothingToChoose,
    NoneFound,
    NoChannels,
}

impl View for DeviceError {
    type V = DeviceFault;

    open spec fn view(&self) -> DeviceFault {
        match self {
            DeviceError::NoneDetected => DeviceFault::NoneDetected,
            DeviceError::SearchFailed(t) => DeviceFault::SearchFailed(t@),
            DeviceError::SerialNotFound(t, u) => DeviceFault::SerialNotFound(t@, u@),
            DeviceError::NothingToChoose => DeviceFault::NothingToChoose,
            DeviceError::NoneFound => DeviceFault::NoneFound,
            DeviceError::NoChannels => DeviceFault::NoChannels,
        }
    }
}

impl DeviceFault {
    /// The fault in words.
    pub open spec fn text(self) -> Seq<char> {
        match self {
            DeviceFault::NoneDetected => "no PicoScope devices detected over USB"@,
            DeviceFault::SearchFailed(t) => "no PicoScope devices detected. "@ + t,
            DeviceFault::SerialNotFound(t, u) => "no PicoScope with serial "@ + t
                + " found. Detected devices: "@ + u,
            DeviceFault::NothingToChoose => "enumeration yielded no PicoScope devices"@,
            DeviceFault::NoneFound => "No PicoScope device found"@,
            DeviceFault::NoChannels => "device reports zero analog channels"@,
        }
    }
}

impl DeviceError {
    /// The fault in words.
    pub fn message(&self) -> (r: String)
        ensures
            r@ == self@.text(),
    {
        match self {
            DeviceError::NoneDetected => String::from_str("no PicoScope devices detected over USB"),
            DeviceError::SearchFailed(t) => String::from_str(
                "no PicoScope devices detected. ",
            ).concat(t.as_str()),
            DeviceError::SerialNotFound(t, u) => String::from_str(
                "no PicoScope with serial ",
            ).concat(t.as_str()).concat(" found. Detected devices: ").concat(u.as_str()),
            DeviceError::NothingToChoose => String::from_str(
                "enumeration yielded no PicoScope devices",
            ),
            DeviceError::NoneFound => String::from_str("No PicoScope device found"),
            DeviceError::NoChannels => String::from_str("device reports zero analog channels"),
        }
    }
}

/// Whether a model is of the 2000 series: its number starts with a 2, with or without the `PS`
/// before it, or the series is named in it.
pub open spec fn is_2000_series(variant: Seq<char>) -> bool {
    let name = uppercase(variant);
    has_prefix(name, "2"@) || has_prefix(name, "PS2"@) || occurs_in("2000"@, name)
}

fn in_2000_series(variant: &str) -> (r: bool)
    ensures
        r == is_2000_series(variant@),
{
    let upper = to_uppercase(variant);
    let name = upper.as_str();
    starts_with(name, "2") || starts_with(name, "PS2") || contains(name, "2000")
}

/// A scope as it is listed: the serial number, and the model in brackets.
pub open spec fn description(device: DeviceInfo) -> Seq<char> {
    device.serial@ + " ("@ + device.variant@ + ")"@
}

/// How the scopes are listed.
pub open spec fn all_descriptions(devices: Seq<DeviceInfo>) -> Seq<Seq<char>> {
    Seq::new(devices.len(), |i: int| description(devices[i]))
}

/// Lists the scopes.
pub fn describe(devices: &Vec<DeviceInfo>) -> (r: Vec<String>)
    ensures
        string_texts(r@) == all_descriptions(devices@),
{
    let mut list: Vec<String> = Vec::new();
    let mut i: usize = 0;
    while i < devices.len()
        invariant
            i <= devices@.len(),
            list@.len() == i,
            forall|j: int| 0 <= j < i ==> (#[trigger] list@[j])@ == description(devices@[j]),
        decreases devices@.len() - i,
    {
        let device = &devices[i];
        list.push(
            String::from_str(device.serial.as_str()).concat(" (").concat(
                device.variant.as_str(),
            ).concat(")"),
        );
        i = i + 1;
    }
    assert(string_texts(list@) == all_descriptions(devices@));
    list
}

/// What went wrong in the search, in one line.
pub fn format_enumeration_errors(errors: &Vec<String>) -> (r: String)
    ensures
        r@ == joined(string_texts(errors@), " | "@),
{
    join(errors, " | ")
}

/// Whether a scope is wanted: by its serial number where one is given, in any case of letters,
/// and otherwise by its series.
pub open spec fn is_wanted(serial: Option<Seq<char>>, device: DeviceInfo) -> bool {
    match serial {
        Some(serial) => same_ignoring_case(device.serial@, serial),
        None => is_2000_series(device.variant@),
    }
}

/// The serial number as characters.
pub open spec fn serial_text(serial: Option<&str>) -> Option<Seq<char>> {
    match serial {
        Some(serial) => Some(serial@),
        None => None,
    }
}

/// The place of the first scope that is wanted, from `from` on.
pub open spec fn first_wanted(
    serial: Option<Seq<char>>,
    devices: Seq<DeviceInfo>,
    from: int,
) -> Option<int>
    decreases devices.len() - from,
{
    if from >= devices.len() {
        None
    } else if is_wanted(serial, devices[from]) {
        Some(from)
    } else {
        first_wanted(serial, devices, from + 1)
    }
}

/// The place of the scope that is opened: the first one that is wanted or, where no serial
/// number is given, the first of all.
pub open spec fn selection(
    serial: Option<Seq<char>>,
    devices: Seq<DeviceInfo>,
    descriptions: Seq<Seq<char>>,
) -> Result<int, DeviceFault> {
    match first_wanted(serial, devices, 0) {
        Some(place) => Ok(place),
        None => match serial {
            Some(serial) => Err(DeviceFault::SerialNotFound(serial, joined(descriptions, ", "@))),
            None => if devices.len() > 0 {
                Ok(0)
            } else {
                Err(DeviceFault::NothingToChoose)
            },
        },
    }
}

/// The outcome of a choice, with its texts as characters.
pub open spec fn choice_as(result: Result<usize, DeviceError>) -> Result<int, DeviceFault> {
    match result {
        Ok(place) => Ok(place as int),
        Err(error) => Err(error@),
    }
}

/// Chooses among the scopes found. `descriptions` lists them.
pub fn select_device(
    serial: Option<&str>,
    devices: &Vec<DeviceInfo>,
    descriptions: &Vec<String>,
) -> (r: Result<usize, DeviceError>)
    ensures
        choice_as(r) == selection(
            serial_text(serial),
            devices@,
            string_texts(descriptions@),
        ),
{
    let mut i: usize = 0;
    while i < devices.len()
        invariant
            i <= devices@.len(),
            first_wanted(serial_text(serial), devices@, 0) == first_wanted(
                serial_text(serial),
                devices@,
                i as int,
            ),
        decreases devices@.len() - i,
    {
        let device = &devices[i];
        let wanted = match serial {
            Some(serial) => same_in_any_case(device.serial.as_str(), serial),
            None => in_2000_series(device.variant.as_str()),
        };
        if wanted {
            return Ok(i);
        }
        i = i + 1;
    }
    match serial {
        Some(serial) => Err(
            DeviceError::SerialNotFound(String::from_str(serial), join(descriptions, ", ")),
        ),
        None => if devices.len() > 0 {
            Ok(0)
        } else {
            Err(DeviceError::NothingToChoose)
        },
    }
}

/// The place of the scope that is opened after a search that found `devices` and met `errors`.
pub open spec fn opening(
    serial: Option<Seq<char>>,
    devices: Seq<DeviceInfo>,
    errors: Seq<Seq<char>>,
) -> Result<int, DeviceFault> {
    if devices.len() > 0 {
        selection(serial, devices, all_descriptions(devices))
    } else if errors.len() == 0 {
        Err(DeviceFault::NoneDetected)
    } else {
        Err(DeviceFault::SearchFailed(joined(errors, " | "@)))
    }
}

/// Chooses the scope that is opened after a search that found `devices` and met `errors`.
pub fn choose_device(serial: Option<&str>, devices: &Vec<DeviceInfo>, errors: &Vec<String>) -> (r:
    Result<usize, DeviceError>)
    ensures
        choice_as(r) == opening(serial_text(serial), devices@, string_texts(errors@)),
{
    if devices.len() == 0 {
        if errors.len() == 0 {
            return Err(DeviceError::NoneDetected);
        }
        return Err(DeviceError::SearchFailed(format_enumeration_errors(errors)));
    }
    let descriptions = describe(devices);
    select_device(serial, devices, &descriptions)
}

/// The place of the first result of a search that is a scope; `found` says of each result
/// whether it is one.
pub fn first_found(found: &Vec<bool>) -> (r: Result<usize, DeviceError>)
    ensures
        match r {
            Ok(place) => place < found@.len() && found@[place as int] && forall|i: int|
                0 <= i < place ==> !(#[trigger] found@[i]),
            Err(error) => error@ == DeviceFault::NoneFound && forall|i: int|
                0 <= i < found@.len() ==> !(#[trigger] found@[i]),
        },
{
    let mut i: usize = 0;
    while i < found.len()
        invariant
            i <= found@.len(),
            forall|j: int| 0 <= j < i ==> !(#[trigger] found@[j]),
        decreases found@.len() - i,
    {
        if found[i] {
            return Ok(i);
        }
        i = i + 1;
    }
    Err(DeviceError::NoneFound)
}

/// A scope can be used if it has an analog channel.
pub fn require_channels(analog_channels: &Vec<u64>) -> (r: Result<(), DeviceError>)
    ensures
        r is Ok == (analog_channels@.len() > 0),
        r matches Err(error) ==> error@ == DeviceFault::NoChannels,
{
    if analog_channels.len() == 0 {
        Err(DeviceError::NoChannels)
    } else {
        Ok(())
    }
}

/// A scope is opened only if it was found, and one that is asked for by its serial number only
/// if it has that number; the first such scope is opened.
pub proof fn law_choice_is_first_wanted(
    serial: Option<Seq<char>>,
    devices: Seq<DeviceInfo>,
    errors: Seq<Seq<char>>,
)
    ensures
        opening(serial, devices, errors) matches Ok(place) ==> {
            &&& 0 <= place < devices.len()
            &&& serial is Some ==> is_wanted(serial, devices[place])
            &&& is_wanted(serial, devices[place]) ==> forall|i: int|
                0 <= i < place ==> !is_wanted(serial, #[trigger] devices[i])
        },
        opening(serial, devices, errors) is Ok == (devices.len() > 0 && (serial is None
            || exists|i: int| 0 <= i < devices.len() && is_wanted(serial, #[trigger] devices[i]))),
{
    lemma_first_wanted(serial, devices, 0);
}

/// The first scope that is wanted is wanted, and none before it is.
proof fn lemma_first_wanted(serial: Option<Seq<char>>, devices: Seq<DeviceInfo>, from: int)
    requires
        0 <= from,
    ensures
        match first_wanted(serial, devices, from) {
            Some(place) => from <= place < devices.len() && is_wanted(serial, devices[place])
                && forall|i: int| from <= i < place ==> !is_wanted(serial, #[trigger] devices[i]),
            None => forall|i: int|
                from <= i < devices.len() ==> !is_wanted(serial, #[trigger] devices[i]),
        },
    decreases devices.len() - from,
{
    if from < devices.len() && !is_wanted(serial, devices[from]) {
        lemma_first_wanted(serial, devices, from + 1);
    }
}

/// A model is of the 2000 series if it starts with a 2, with or without `PS` before it in any case of
/// letters, or if 2000 is somewhere in it.
pub proof fn law_models_of_the_series(variant: Seq<char>)
    ensures
        is_2000_series(variant) == ((variant.len() >= 1 && variant[0] == '2') || (variant.len() >= 3
            && (variant[0] == 'P' || variant[0] == 'p') && (variant[1] == 'S' || variant[1] == 's')
            && variant[2] == '2') || exists|i: int|
            0 <= i <= variant.len() - 4 && #[trigger] variant.subrange(i, i + 4) == seq![
                '2',
                '0',
                '0',
                '0',
            ]),
{
    reveal_strlit("2");
    reveal_strlit("PS2");
    reveal_strlit("2000");
    let name = uppercase(variant);
    let digits = seq!['2', '0', '0', '0'];
    assert("2000"@ == digits);
    assert("2"@ == seq!['2']);
    assert("PS2"@ == seq!['P', 'S', '2']);
    if variant.len() >= 1 {
        assert(name.take(1)[0] == name[0]);
        if variant[0] == '2' {
            assert(name.take(1) == "2"@);
        }
    }
    if variant.len() >= 3 {
        let start = name.take(3);
        assert(start[0] == name[0] && start[1] == name[1] && start[2] == name[2]);
        if (variant[0] == 'P' || variant[0] == 'p') && (variant[1] == 'S' || variant[1] == 's')
            && variant[2] == '2' {
            assert(start == "PS2"@);
        }
    }
    if occurs_in("2000"@, name) {
        let i = choose|i: int| #[trigger] occurs_at("2000"@, name, i);
        let part = name.subrange(i, i + 4);
        assert(part[0] == '2' && part[1] == '0' && part[2] == '0' && part[3] == '0');
        assert(name[i] == part[0] && name[i + 1] == part[1] && name[i + 2] == part[2] && name[i + 3]
            == part[3]);
        assert(variant.subrange(i, i + 4) == digits);
    }
    if exists|i: int|
        0 <= i <= variant.len() - 4 && #[trigger] variant.subrange(i, i + 4) == digits {
        let i = choose|i: int|
            0 <= i <= variant.len() - 4 && #[trigger] variant.subrange(i, i + 4) == digits;
        let part = variant.subrange(i, i + 4);
        assert(part[0] == '2' && part[1] == '0' && part[2] == '0' && part[3] == '0');
        assert(variant[i] == part[0] && variant[i + 1] == part[1] && variant[i + 2] == part[2]
            && variant[i + 3] == part[3]);
        assert(name.subrange(i, i + 4) == digits);
        assert(occurs_at("2000"@, name, i));
    }
}

/// With a serial number, the scopes with that number in any case of letters are wanted; without one,
/// those of the series.
pub proof fn law_which_scopes_are_wanted(serial: Seq<char>, device: DeviceInfo)
    ensures
        is_wanted(Some(serial), device) == (device.serial@.len() == serial.len() && forall|i: int|
            0 <= i < serial.len() ==> upper_char(#[trigger] device.serial@[i]) == upper_char(
                serial[i],
            )),
        is_wanted(None, device) == is_2000_series(device.variant@),
{
    let own = device.serial@;
    if same_ignoring_case(own, serial) {
        assert(uppercase(own).len() == uppercase(serial).len());
        assert forall|i: int| 0 <= i < serial.len() implies upper_char(#[trigger] own[i])
            == upper_char(serial[i]) by {
            assert(uppercase(own)[i] == uppercase(serial)[i]);
        }
    }
    if own.len() == serial.len() && forall|i: int|
        0 <= i < serial.len() ==> upper_char(#[trigger] own[i]) == upper_char(serial[i]) {
        assert(uppercase(own) == uppercase(serial));
    }
}

/// Which scope is opened, and what is told where none is: the first one that is wanted; without a
/// serial number the first of all if none is of the series; and otherwise the reason, with the scopes
/// that were found or the errors that were met.
pub proof fn law_what_is_opened(
    serial: Option<Seq<char>>,
    devices: Seq<DeviceInfo>,
    errors: Seq<Seq<char>>,
    listed: Seq<Seq<char>>,
)
    requires
        listed.len() == devices.len(),
        forall|i: int|
            0 <= i < devices.len() ==> #[trigger] listed[i] == devices[i].serial@ + " ("@
                + devices[i].variant@ + ")"@,
    ensures
        ({
            let opened = opening(serial, devices, errors);
            let wanted = exists|i: int|
                0 <= i < devices.len() && is_wanted(serial, #[trigger] devices[i]);
            &&& devices.len() == 0 && errors.len() == 0 ==> opened == Err::<int, DeviceFault>(
                DeviceFault::NoneDetected,
            )
            &&& devices.len() == 0 && errors.len() > 0 ==> opened == Err::<int, DeviceFault>(
                DeviceFault::SearchFailed(joined(errors, " | "@)),
            )
            &&& wanted ==> {
                &&& opened is Ok
                &&& 0 <= opened->Ok_0 < devices.len()
                &&& is_wanted(serial, devices[opened->Ok_0])
                &&& forall|i: int|
                    0 <= i < opened->Ok_0 ==> !is_wanted(serial, #[trigger] devices[i])
            }
            &&& devices.len() > 0 && !wanted ==> match serial {
                None => opened == Ok::<int, DeviceFault>(0),
                Some(number) => opened == Err::<int, DeviceFault>(
                    DeviceFault::SerialNotFound(number, joined(listed, ", "@)),
                ),
            }
        }),
        selection(None, Seq::empty(), listed) == Err::<int, DeviceFault>(
            DeviceFault::NothingToChoose,
        ),
        selection(serial, devices, listed) == if devices.len() > 0 {
            opening(serial, devices, errors)
        } else {
            selection(serial, Seq::empty(), listed)
        },
{
    lemma_first_wanted(serial, devices, 0);
    lemma_first_wanted(serial, Seq::empty(), 0);
    assert(all_descriptions(devices) == listed);
    if devices.len() == 0 {
        assert(devices == Seq::<DeviceInfo>::empty());
    }
}

/// In which words a fault is told, and that it is seen as it is.
pub proof fn law_words_of_faults(error: DeviceError, result: Result<usize, DeviceError>, serial: &str)
    ensures
        error@.text() == match error {
            DeviceError::NoneDetected => "no PicoScope devices detected over USB"@,
            DeviceError::SearchFailed(t) => "no PicoScope devices detected. "@ + t@,
            DeviceError::SerialNotFound(t, u) => "no PicoScope with serial "@ + t@
                + " found. Detected devices: "@ + u@,
            DeviceError::NothingToChoose => "enumeration yielded no PicoScope devices"@,
            DeviceError::NoneFound => "No PicoScope device found"@,
            DeviceError::NoChannels => "device reports zero analog channels"@,
        },
        match result {
            Ok(place) => choice_as(result) == Ok::<int, DeviceFault>(place as int),
            Err(e) => choice_as(result) == Err::<int, DeviceFault>(e@),
        },
        match error {
            DeviceError::NoneDetected => error@ is NoneDetected,
            DeviceError::SearchFailed(t) => error@ == DeviceFault::SearchFailed(t@),
            DeviceError::SerialNotFound(t, u) => error@ == DeviceFault::SerialNotFound(t@, u@),
            DeviceError::NothingToChoose => error@ is NothingToChoose,
            DeviceError::NoneFound => error@ is NoneFound,
            DeviceError::NoChannels => error@ is NoChannels,
        },
        serial_text(None) is None,
        serial_text(Some(serial)) == Some(serial@),
{
}

} // verus!
