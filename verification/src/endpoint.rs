//! Serial transports and the choice of the one to flash through.

use vstd::prelude::*;
use crate::error::PipelineError;
use crate::prompt::{chosen_index, pick};

verus! {

/// How a serial transport is attached to the host.
#[derive(Clone, Copy, Debug, PartialEq, Eq, Structural)]
pub enum PortKind {
    Usb,
    Other,
}

/// What a USB-attached transport says of itself.
#[derive(Clone, Debug, PartialEq, Eq)]
pub struct UsbInfo {
    pub vendor_id: u16,
    pub product_id: u16,
    pub manufacturer: Option<String>,
    pub serial_number: Option<String>,
}

/// What a [`UsbInfo`] holds.
pub struct UsbView {
    pub vendor_id: u16,
    pub product_id: u16,
    pub manufacturer: Option<Seq<char>>,
    pub serial_number: Option<Seq<char>>,
}

/// What an optional text holds.
pub open spec fn text_view(text: Option<String>) -> Option<Seq<char>> {
    match text {
        Some(t) => Some(t@),
        None => None,
    }
}

impl View for UsbInfo {
    type V = UsbView;

    open spec fn view(&self) -> UsbView {
        UsbView {
            vendor_id: self.vendor_id,
            product_id: self.product_id,
            manufacturer: text_view(self.manufacturer),
            serial_number: text_view(self.serial_number),
        }
    }
}

/// One serial transport of the host. It is attached over USB exactly when it
/// carries a [`UsbInfo`].
#[derive(Clone, Debug, PartialEq, Eq)]
pub struct SerialEndpoint {
    pub name: String,
    pub usb_info: Option<UsbInfo>,
}

/// What a [`SerialEndpoint`] holds.
pub struct EndpointView {
    pub name: Seq<char>,
    pub usb_info: Option<UsbView>,
}

impl EndpointView {
    /// How the transport is attached.
    pub open spec fn kind(self) -> PortKind {
        if self.usb_info is Some {
            PortKind::Usb
        } else {
            PortKind::Other
        }
    }
}

impl View for SerialEndpoint {
    type V = EndpointView;

    open spec fn view(&self) -> EndpointView {
        EndpointView {
            name: self.name@,
            usb_info: match self.usb_info {
                Some(info) => Some(info@),
                None => None,
            },
        }
    }
}

/// What a list of transports holds, entry by entry.
pub open spec fn endpoints_view(endpoints: Seq<SerialEndpoint>) -> Seq<EndpointView> {
    endpoints.map_values(|e: SerialEndpoint| e@)
}

/// A copy of an optional text.
fn copy_text(text: &Option<String>) -> (copy: Option<String>)
    ensures
        text_view(copy) == text_view(*text),
{
    match text {
        Some(t) => Some(t.clone()),
        None => None,
    }
}

impl SerialEndpoint {
    /// A copy of the transport's description.
    pub fn duplicate(&self) -> (copy: SerialEndpoint)
        ensures
            copy@ == self@,
    {
        let usb_info = match &self.usb_info {
            Some(info) => Some(
                UsbInfo {
                    vendor_id: info.vendor_id,
                    product_id: info.product_id,
                    manufacturer: copy_text(&info.manufacturer),
                    serial_number: copy_text(&info.serial_number),
                },
            ),
            None => None,
        };
        SerialEndpoint { name: self.name.clone(), usb_info }
    }

    /// How the transport is attached.
    pub fn kind(&self) -> (kind: PortKind)
        ensures
            kind == self@.kind(),
    {
        match self.usb_info {
            Some(_) => PortKind::Usb,
            None => PortKind::Other,
        }
    }
}

/// What the selector does with a list of transports before anybody is asked.
#[derive(Debug, PartialEq, Eq)]
pub enum Selection<'a> {
    /// The list has one entry, which is taken.
    Taken(&'a SerialEndpoint),
    /// The list has several entries: the operator picks one by its number.
    Ask,
}

/// What a list of transports alone decides: an error where it is empty, its
/// only entry where it has one, and nothing yet (`None`) where it has several
/// and the operator has to be asked.
pub open spec fn first_choice(endpoints: Seq<EndpointView>) -> Result<
    Option<EndpointView>,
    PipelineError,
> {
    if endpoints.len() == 0 {
        Err(PipelineError::NoDeviceFound)
    } else if endpoints.len() == 1 {
        Ok(Some(endpoints[0]))
    } else {
        Ok(None)
    }
}

/// The transport that a reply picks from a list that was shown with its
/// entries numbered from one.
pub open spec fn replied_choice(endpoints: Seq<EndpointView>, reply: Seq<char>) -> Result<
    EndpointView,
    PipelineError,
> {
    match chosen_index(reply, endpoints.len()) {
        Some(index) => Ok(endpoints[index as int]),
        None => Err(PipelineError::InvalidSelection),
    }
}

/// What becomes of a selected transport: it is kept if it is attached over
/// USB, which flashing needs for its reset sequence.
pub open spec fn usb_checked(endpoint: EndpointView) -> Result<EndpointView, PipelineError> {
    if endpoint.usb_info is Some {
        Ok(endpoint)
    } else {
        Err(PipelineError::NotUsbDevice)
    }
}

/// Selects the transport to flash through, as far as the list alone decides.
///
/// No transport is a [`PipelineError::NoDeviceFound`]. A single transport is
/// taken without asking, whatever its kind. With several, the operator has to
/// be asked, and [`select_by_reply`] takes the answer.
pub fn select<'a>(endpoints: &'a Vec<SerialEndpoint>) -> (selected: Result<
    Selection<'a>,
    PipelineError,
>)
    ensures
        match selected {
            Ok(Selection::Taken(endpoint)) => first_choice(endpoints_view(endpoints@)) == Ok::<
                Option<EndpointView>,
                PipelineError,
            >(Some(endpoint@)),
            Ok(Selection::Ask) => first_choice(endpoints_view(endpoints@)) == Ok::<
                Option<EndpointView>,
                PipelineError,
            >(None),
            Err(e) => first_choice(endpoints_view(endpoints@)) == Err::<
                Option<EndpointView>,
                PipelineError,
            >(e),
        },
{
    if endpoints.len() == 0 {
        Err(PipelineError::NoDeviceFound)
    } else if endpoints.len() == 1 {
        Ok(Selection::Taken(&endpoints[0]))
    } else {
        Ok(Selection::Ask)
    }
}

/// The transport that the operator's `reply` picks from a list that was shown
/// with its entries numbered from one.
///
/// A reply that is not a number, or that names no entry, is a
/// [`PipelineError::InvalidSelection`].
pub fn select_by_reply<'a>(endpoints: &'a Vec<SerialEndpoint>, reply: &str) -> (selected: Result<
    &'a SerialEndpoint,
    PipelineError,
>)
    ensures
        match selected {
            Ok(endpoint) => replied_choice(endpoints_view(endpoints@), reply@) == Ok::<
                EndpointView,
                PipelineError,
            >(endpoint@),
            Err(e) => replied_choice(endpoints_view(endpoints@), reply@) == Err::<
                EndpointView,
                PipelineError,
            >(e),
        },
{
    match pick(reply, endpoints.len()) {
        Ok(index) => Ok(&endpoints[index]),
        Err(e) => Err(e),
    }
}

/// The USB identity of the selected transport.
///
/// A transport that is not attached over USB is a
/// [`PipelineError::NotUsbDevice`].
pub fn require_usb(endpoint: &SerialEndpoint) -> (identity: Result<&UsbInfo, PipelineError>)
    ensures
        match identity {
            Ok(info) => endpoint@.usb_info == Some(info@) && usb_checked(endpoint@) == Ok::<
                EndpointView,
                PipelineError,
            >(endpoint@),
            Err(e) => usb_checked(endpoint@) == Err::<EndpointView, PipelineError>(e),
        },
{
    match &endpoint.usb_info {
        Some(info) => Ok(info),
        None => Err(PipelineError::NotUsbDevice),
    }
}

} // verus!
