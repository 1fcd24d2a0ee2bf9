//! Clipboard, selection and drag-and-drop transfers: bounded offers and
//! requests, and the guard that a transport asks before it sends one.

use crate::compat::{CapabilityState, WaylandProbe};
use crate::text::{
    byte_length, chars_of, concat2, concat3, holds, option_str_view, option_view, owned, views,
    views_push,
};
use vstd::prelude::*;
use vstd::string::*;
use vstd::utf8::encode_utf8;

verus! {

pub const MANAGER_INTERFACE: &'static str = "wl_data_device_manager";

pub const DEVICE_INTERFACE: &'static str = "wl_data_device";

pub const SOURCE_INTERFACE: &'static str = "wl_data_source";

pub const OFFER_INTERFACE: &'static str = "wl_data_offer";

pub const PRIMARY_SELECTION_INTERFACE: &'static str = "zwp_primary_selection_v1";

pub const PORTAL_FILE_TRANSFER_MIME: &'static str = "application/vnd.portal.filetransfer";

/// The most MIME types that one offer holds.
pub const MAX_MIME_TYPES: usize = 64;

/// The longest MIME type, in bytes.
pub const MAX_MIME_LENGTH: usize = 255;

/// Which Wayland data-device transfer is being described.
#[derive(Clone, Copy, Debug, Eq, Ord, PartialEq, PartialOrd, Structural)]
pub enum DataTransferKind {
    Clipboard,
    PrimarySelection,
    DragAndDrop,
}

#[derive(Clone, Debug, Eq, PartialEq)]
pub enum DataDeviceError {
    InvalidMimeType,
    NoMimeTypes,
    TooManyMimeTypes,
    CapabilityNotConfirmed { capability: &'static str, state: CapabilityState },
}

impl DataDeviceError {
    pub open spec fn text(&self) -> Seq<char> {
        match *self {
            DataDeviceError::InvalidMimeType => "invalid MIME type"@,
            DataDeviceError::NoMimeTypes => "a data offer needs at least one MIME type"@,
            DataDeviceError::TooManyMimeTypes => "data offer exceeds MIME type limit"@,
            DataDeviceError::CapabilityNotConfirmed { capability, state } => capability@ + " is "@
                + state.spec_name() + ", not confirmed"@,
        }
    }

    pub fn message(&self) -> (message: String)
        ensures
            message@ == self.text(),
    {
        match self {
            DataDeviceError::InvalidMimeType => "invalid MIME type".to_owned(),
            DataDeviceError::NoMimeTypes => "a data offer needs at least one MIME type".to_owned(),
            DataDeviceError::TooManyMimeTypes => "data offer exceeds MIME type limit".to_owned(),
            DataDeviceError::CapabilityNotConfirmed { capability, state } => concat2(
                concat3(capability, " is ", state.name()).as_str(),
                ", not confirmed",
            ),
        }
    }
}

/// The control characters of Unicode.
pub open spec fn is_control(c: char) -> bool {
    c <= '\u{1f}' || '\u{7f}' <= c <= '\u{9f}'
}

/// A MIME type that may be offered: it has a slash, no control character and
/// at most 255 bytes.
pub open spec fn is_mime_type(mime: Seq<char>) -> bool {
    &&& encode_utf8(mime).len() <= MAX_MIME_LENGTH
    &&& mime.contains('/')
    &&& forall|i: int| 0 <= i < mime.len() ==> !is_control(#[trigger] mime[i])
}

pub fn validate_mime_type(mime_type: &str) -> (result: Result<(), DataDeviceError>)
    ensures
        match result {
            Ok(_) => is_mime_type(mime_type@),
            Err(error) => !is_mime_type(mime_type@) && error is InvalidMimeType,
        },
{
    if byte_length(mime_type) > MAX_MIME_LENGTH {
        return Err(DataDeviceError::InvalidMimeType);
    }
    let chars = chars_of(mime_type);
    let mut slash = false;
    let mut i: usize = 0;
    while i < chars.len()
        invariant
            i <= chars.len(),
            chars@ == mime_type@,
            slash == exists|k: int| 0 <= k < i && chars@[k] == '/',
            forall|k: int| 0 <= k < i ==> !is_control(#[trigger] chars@[k]),
        decreases chars.len() - i,
    {
        let c = chars[i];
        if c <= '\u{1f}' || ('\u{7f}' <= c && c <= '\u{9f}') {
            assert(is_control(mime_type@[i as int]));
            return Err(DataDeviceError::InvalidMimeType);
        }
        if c == '/' {
            slash = true;
            assert(chars@[i as int] == '/');
        }
        i += 1;
    }
    if slash {
        Ok(())
    } else {
        Err(DataDeviceError::InvalidMimeType)
    }
}

/// A bounded, protocol-neutral data offer.
#[derive(Clone, Debug, Eq, PartialEq)]
pub struct DataOfferContract {
    pub kind: DataTransferKind,
    pub mime_types: Vec<String>,
    pub serial: Option<u32>,
}

/// What an offer of `mimes` comes to: the types without repeats, or the first
/// fault, at the type where it shows.
pub open spec fn offered(mimes: Seq<Seq<char>>) -> Result<Seq<Seq<char>>, DataDeviceError>
    decreases mimes.len(),
{
    if mimes.len() == 0 {
        Ok(Seq::empty())
    } else {
        match offered(mimes.drop_last()) {
            Err(error) => Err(error),
            Ok(known) => if !is_mime_type(mimes.last()) {
                Err(DataDeviceError::InvalidMimeType)
            } else if known.contains(mimes.last()) {
                Ok(known)
            } else if known.len() == MAX_MIME_TYPES {
                Err(DataDeviceError::TooManyMimeTypes)
            } else {
                Ok(known.push(mimes.last()))
            },
        }
    }
}

pub open spec fn offer_result(mimes: Seq<Seq<char>>) -> Result<Seq<Seq<char>>, DataDeviceError> {
    match offered(mimes) {
        Ok(known) if known.len() == 0 => Err(DataDeviceError::NoMimeTypes),
        result => result,
    }
}

proof fn a_fault_stays(mimes: Seq<Seq<char>>, n: int)
    requires
        0 <= n <= mimes.len(),
        offered(mimes.subrange(0, n)) is Err,
    ensures
        offered(mimes) == offered(mimes.subrange(0, n)),
    decreases mimes.len(),
{
    if n < mimes.len() {
        assert(mimes.drop_last().subrange(0, n) =~= mimes.subrange(0, n));
        a_fault_stays(mimes.drop_last(), n);
    } else {
        assert(mimes.subrange(0, n) =~= mimes);
    }
}

impl DataOfferContract {
    /// An offer of at least one and at most 64 different MIME types.
    pub fn new(kind: DataTransferKind, mime_types: Vec<String>, serial: Option<u32>) -> (result:
        Result<Self, DataDeviceError>)
        ensures
            match (result, offer_result(views(mime_types@))) {
                (Ok(offer), Ok(known)) => offer.kind == kind && views(offer.mime_types@) == known
                    && offer.serial == serial,
                (Err(error), Err(fault)) => error == fault,
                _ => false,
            },
    {
        let ghost all = views(mime_types@);
        let mut normalized: Vec<String> = Vec::new();
        let mut i: usize = 0;
        assert(views(normalized@) =~= Seq::empty());
        while i < mime_types.len()
            invariant
                i <= mime_types.len(),
                all == views(mime_types@),
                offered(all.subrange(0, i as int)) == Ok::<Seq<Seq<char>>, DataDeviceError>(
                    views(normalized@),
                ),
            decreases mime_types.len() - i,
        {
            let ghost next = all.subrange(0, i + 1);
            assert(next.drop_last() =~= all.subrange(0, i as int));
            assert(next.last() == mime_types@[i as int]@);
            match validate_mime_type(mime_types[i].as_str()) {
                Ok(_) => {},
                Err(_) => {
                    proof {
                        a_fault_stays(all, i + 1);
                    }
                    return Err(DataDeviceError::InvalidMimeType);
                },
            }
            if !holds(normalized.as_slice(), mime_types[i].as_str()) {
                if normalized.len() == MAX_MIME_TYPES {
                    proof {
                        a_fault_stays(all, i + 1);
                    }
                    return Err(DataDeviceError::TooManyMimeTypes);
                }
                let kept = mime_types[i].clone();
                proof {
                    views_push(normalized@, kept);
                }
                normalized.push(kept);
            }
            i += 1;
        }
        assert(all.subrange(0, i as int) =~= all);
        if normalized.len() == 0 {
            return Err(DataDeviceError::NoMimeTypes);
        }
        Ok(DataOfferContract { kind, mime_types: normalized, serial })
    }

    /// Whether the offer holds a MIME type.
    pub fn accepts(&self, mime_type: &str) -> (yes: bool)
        ensures
            yes == views(self.mime_types@).contains(mime_type@),
    {
        holds(self.mime_types.as_slice(), mime_type)
    }
}

/// An accepted offer holds one to 64 different, valid MIME types, and exactly
/// those that were offered.
pub proof fn offers_are_bounded_and_distinct(mimes: Seq<Seq<char>>)
    requires
        offer_result(mimes) is Ok,
    ensures
        0 < (offer_result(mimes)->Ok_0).len() <= MAX_MIME_TYPES,
        (offer_result(mimes)->Ok_0).no_duplicates(),
        forall|m: Seq<char>|
            (offer_result(mimes)->Ok_0).contains(m) <==> #[trigger] mimes.contains(m),
        forall|i: int| 0 <= i < mimes.len() ==> is_mime_type(#[trigger] mimes[i]),
{
    offered_is_bounded(mimes);
}

proof fn offered_is_bounded(mimes: Seq<Seq<char>>)
    requires
        offered(mimes) is Ok,
    ensures
        (offered(mimes)->Ok_0).len() <= MAX_MIME_TYPES,
        (offered(mimes)->Ok_0).no_duplicates(),
        forall|m: Seq<char>|
            (offered(mimes)->Ok_0).contains(m) <==> #[trigger] mimes.contains(m),
        forall|i: int| 0 <= i < mimes.len() ==> is_mime_type(#[trigger] mimes[i]),
    decreases mimes.len(),
{
    if mimes.len() > 0 {
        let rest = mimes.drop_last();
        offered_is_bounded(rest);
        let before = offered(rest)->Ok_0;
        let after = offered(mimes)->Ok_0;
        assert(mimes[mimes.len() - 1] == mimes.last());
        assert forall|m: Seq<char>| after.contains(m) <==> #[trigger] mimes.contains(m) by {
            assert(before.contains(m) <==> rest.contains(m));
            if mimes.contains(m) {
                let k = choose|k: int| 0 <= k < mimes.len() && mimes[k] == m;
                if k < rest.len() {
                    assert(rest[k] == m);
                    let q = choose|q: int| 0 <= q < before.len() && before[q] == m;
                    assert(after[q] == m);
                } else if after.len() > before.len() {
                    assert(after[before.len() as int] == m);
                }
            }
            if after.contains(m) {
                let k = choose|k: int| 0 <= k < after.len() && after[k] == m;
                if k < before.len() {
                    assert(before[k] == m);
                    let q = choose|q: int| 0 <= q < rest.len() && rest[q] == m;
                    assert(mimes[q] == m);
                }
            }
        }
        assert forall|i: int| 0 <= i < mimes.len() implies is_mime_type(#[trigger] mimes[i]) by {
            if i < rest.len() {
                assert(rest[i] == mimes[i]);
            }
        }
    } else {
        assert forall|m: Seq<char>| (offered(mimes)->Ok_0).contains(m) <==> #[trigger] mimes.contains(
            m,
        ) by {}
    }
}

/// Operations that a data-device adapter carries out. The request carries no
/// bytes and performs nothing by itself.
#[derive(Clone, Debug, Eq, PartialEq)]
pub enum DataDeviceRequest {
    ReadClipboard { mime_type: String },
    WriteClipboard { mime_type: String, serial: u32 },
    AcceptDrop { serial: u32, mime_type: Option<String> },
    FinishDrop { success: bool },
    Cancel,
}

impl DataDeviceRequest {
    pub fn read_clipboard(mime_type: &str) -> (result: Result<Self, DataDeviceError>)
        ensures
            match result {
                Ok(DataDeviceRequest::ReadClipboard { mime_type: kept }) => is_mime_type(mime_type@)
                    && kept@ == mime_type@,
                Ok(_) => false,
                Err(error) => !is_mime_type(mime_type@) && error is InvalidMimeType,
            },
    {
        match validate_mime_type(mime_type) {
            Ok(_) => Ok(DataDeviceRequest::ReadClipboard { mime_type: mime_type.to_owned() }),
            Err(error) => Err(error),
        }
    }

    pub fn write_clipboard(mime_type: &str, serial: u32) -> (result: Result<Self, DataDeviceError>)
        ensures
            match result {
                Ok(DataDeviceRequest::WriteClipboard { mime_type: kept, serial: given }) => {
                    is_mime_type(mime_type@) && kept@ == mime_type@ && given == serial
                },
                Ok(_) => false,
                Err(error) => !is_mime_type(mime_type@) && error is InvalidMimeType,
            },
    {
        match validate_mime_type(mime_type) {
            Ok(_) => Ok(
                DataDeviceRequest::WriteClipboard { mime_type: mime_type.to_owned(), serial },
            ),
            Err(error) => Err(error),
        }
    }

    /// Accepts a drop as one MIME type, or as none.
    pub fn accept_drop(serial: u32, mime_type: Option<&str>) -> (result: Result<
        Self,
        DataDeviceError,
    >)
        ensures
            match result {
                Ok(DataDeviceRequest::AcceptDrop { serial: given, mime_type: kept }) => {
                    &&& given == serial
                    &&& option_view(kept) == option_str_view(mime_type)
                    &&& mime_type matches Some(mime) ==> is_mime_type(mime@)
                },
                Ok(_) => false,
                Err(error) => error is InvalidMimeType && (mime_type matches Some(mime)
                    && !is_mime_type(mime@)),
            },
    {
        match mime_type {
            Some(mime) => match validate_mime_type(mime) {
                Ok(_) => {},
                Err(error) => return Err(error),
            },
            None => {},
        }
        Ok(DataDeviceRequest::AcceptDrop { serial, mime_type: owned(mime_type) })
    }
}

/// What a transport may do, asked before it sends a request.
#[derive(Clone, Copy, Debug, Eq, PartialEq, Structural)]
pub struct DataDeviceContract {
    pub data_device: CapabilityState,
    pub clipboard: CapabilityState,
    pub primary_selection: CapabilityState,
    pub drag_and_drop: CapabilityState,
}

impl DataDeviceContract {
    pub fn from_probe(probe: WaylandProbe) -> (contract: Self)
        ensures
            contract == (DataDeviceContract {
                data_device: probe.data_device_manager.implied(),
                clipboard: probe.data_device_manager.implied(),
                primary_selection: probe.primary_selection.implied(),
                drag_and_drop: probe.drag_and_drop.implied(),
            }),
    {
        DataDeviceContract {
            data_device: probe.data_device_manager.state(),
            clipboard: probe.data_device_manager.state(),
            primary_selection: probe.primary_selection.state(),
            drag_and_drop: probe.drag_and_drop.state(),
        }
    }

    pub fn require_clipboard(&self) -> (result: Result<(), DataDeviceError>)
        ensures
            guards(result, self.clipboard, "clipboard"@),
    {
        require_capability(self.clipboard, "clipboard")
    }

    pub fn require_drag_and_drop(&self) -> (result: Result<(), DataDeviceError>)
        ensures
            guards(result, self.drag_and_drop, "drag-and-drop"@),
    {
        require_capability(self.drag_and_drop, "drag-and-drop")
    }

    pub fn require_primary_selection(&self) -> (result: Result<(), DataDeviceError>)
        ensures
            guards(result, self.primary_selection, "primary selection"@),
    {
        require_capability(self.primary_selection, "primary selection")
    }
}

/// Whether `result` lets a request pass exactly when its capability is
/// available, and otherwise tells which one is in what state.
pub open spec fn guards(
    result: Result<(), DataDeviceError>,
    state: CapabilityState,
    capability: Seq<char>,
) -> bool {
    match result {
        Ok(_) => state == CapabilityState::Available,
        Err(DataDeviceError::CapabilityNotConfirmed { capability: name, state: found }) => state
            != CapabilityState::Available && name@ == capability && found == state,
        Err(_) => false,
    }
}

fn require_capability(state: CapabilityState, capability: &'static str) -> (result: Result<
    (),
    DataDeviceError,
>)
    ensures
        guards(result, state, capability@),
{
    if state == CapabilityState::Available {
        Ok(())
    } else {
        Err(DataDeviceError::CapabilityNotConfirmed { capability, state })
    }
}

/// The boundary of clipboard and data-device transports. A transport maps the
/// request to Wayland and returns an error where the contract is unconfirmed.
pub trait DataDeviceTransport {
    fn request(&mut self, request: DataDeviceRequest) -> Result<(), DataDeviceError>;
}

/// The boundary of drag-and-drop input. Coordinates are logical surface
/// coordinates, the bits of binary64 numbers.
pub trait DragAndDropTransport {
    fn enter(&mut self, offer: DataOfferContract, x: u64, y: u64) -> Result<(), DataDeviceError>;

    fn motion(&mut self, serial: u32, x: u64, y: u64) -> Result<(), DataDeviceError>;

    fn drop(&mut self, serial: u32) -> Result<(), DataDeviceError>;

    fn leave(&mut self) -> Result<(), DataDeviceError>;
}

// ---- more laws -----------------------------------------------------------------

/// A MIME type is valid exactly where it has a slash, at most 255 bytes and no
/// control character.
pub proof fn mime_types_have_a_slash(mime: Seq<char>)
    ensures
        is_mime_type(mime) <==> mime.contains('/') && encode_utf8(mime).len() <= 255 && forall|
            i: int,
        |
            0 <= i < mime.len() ==> {
                let c = #[trigger] mime[i];
                !(c <= '\u{1f}') && !('\u{7f}' <= c <= '\u{9f}')
            },
{
    if is_mime_type(mime) {
        assert forall|i: int| 0 <= i < mime.len() implies {
            let c = #[trigger] mime[i];
            !(c <= '\u{1f}') && !('\u{7f}' <= c <= '\u{9f}')
        } by {
            assert(!is_control(mime[i]));
        }
    } else if mime.contains('/') && encode_utf8(mime).len() <= 255 {
        let i = choose|i: int| 0 <= i < mime.len() && is_control(#[trigger] mime[i]);
        assert(is_control(mime[i]));
    }
}

/// An offer of valid MIME types is accepted where there are one to 64 of them;
/// one with an invalid type is refused for that where no more than 64 are
/// different, and an empty one for having none.
pub proof fn offers_are_refused_for_these(mimes: Seq<Seq<char>>)
    ensures
        mimes.len() == 0 ==> offer_result(mimes) == Err::<Seq<Seq<char>>, DataDeviceError>(
            DataDeviceError::NoMimeTypes,
        ),
        0 < mimes.len() <= 64 && (forall|i: int|
            0 <= i < mimes.len() ==> is_mime_type(#[trigger] mimes[i])) ==> offer_result(
            mimes,
        ) is Ok,
        0 < mimes.len() <= 64 && (exists|i: int|
            0 <= i < mimes.len() && !is_mime_type(#[trigger] mimes[i])) ==> offer_result(mimes)
            == Err::<Seq<Seq<char>>, DataDeviceError>(DataDeviceError::InvalidMimeType),
{
    if mimes.len() <= 64 {
        short_offers(mimes);
    }
}

proof fn short_offers(mimes: Seq<Seq<char>>)
    requires
        mimes.len() <= 64,
    ensures
        (forall|i: int| 0 <= i < mimes.len() ==> is_mime_type(#[trigger] mimes[i])) ==> (offered(
            mimes,
        ) matches Ok(known) && known.len() <= mimes.len() && (mimes.len() > 0 ==> known.len() > 0)),
        (exists|i: int| 0 <= i < mimes.len() && !is_mime_type(#[trigger] mimes[i])) ==> offered(
            mimes,
        ) == Err::<Seq<Seq<char>>, DataDeviceError>(DataDeviceError::InvalidMimeType),
    decreases mimes.len(),
{
    if mimes.len() > 0 {
        let rest = mimes.drop_last();
        short_offers(rest);
        assert(mimes.last() == mimes[mimes.len() - 1]);
        if forall|i: int| 0 <= i < mimes.len() ==> is_mime_type(#[trigger] mimes[i]) {
            assert forall|i: int| 0 <= i < rest.len() implies is_mime_type(#[trigger] rest[i]) by {
                assert(rest[i] == mimes[i]);
            }
        } else {
            let i = choose|i: int| 0 <= i < mimes.len() && !is_mime_type(#[trigger] mimes[i]);
            if i < rest.len() {
                assert(rest[i] == mimes[i]);
            } else if forall|k: int| 0 <= k < rest.len() ==> is_mime_type(#[trigger] rest[k]) {
                assert(offered(rest) is Ok);
            }
        }
    }
}

/// A capability is usable exactly where it is available; otherwise the error
/// names it and tells its state.
pub proof fn capabilities_guard_their_use(
    result: Result<(), DataDeviceError>,
    state: CapabilityState,
    capability: Seq<char>,
)
    requires
        guards(result, state, capability),
    ensures
        result is Ok <==> state == CapabilityState::Available,
        result matches Err(DataDeviceError::CapabilityNotConfirmed {
            capability: name,
            state: found,
        }) ==> name@ == capability && found == state,
        result matches Err(error) ==> error is CapabilityNotConfirmed,
{
}

} // verus!
