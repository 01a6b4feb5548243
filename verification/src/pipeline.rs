//! The provisioning run from the first look at the ports to the final reset.
//!
//! A run is a state machine that the shell drives. In each state the machine
//! names the one thing that the shell is to do next ([`Pipeline::action`]):
//! list the ports, ask the operator, make a request, carry out a command on
//! the device. The shell does it and hands back what came of it as an
//! [`Event`] ([`Pipeline::advance`]). The machine never touches a terminal,
//! the network or the device itself, and it retries nothing: the first
//! failure ends the run.
//!
//! The stages follow one another in a fixed order: the transport is selected
//! before the network is used, the catalog is read before a version is
//! resolved, every segment is fetched before the port is opened.

use vstd::prelude::*;
use crate::catalog::{
    resolve, Catalog, CatalogView, DeviceEntry, DeviceView, SegmentView, VersionEntry,
};
use crate::endpoint::{
    endpoints_view, first_choice, replied_choice, require_usb, select, select_by_reply,
    usb_checked, EndpointView, Selection, SerialEndpoint,
};
use crate::error::{Outcome, PipelineError};
use crate::fetch::{
    downloads_view, is_absolute_url, request_url, DownloadedSegment, DownloadedView,
};
use crate::flash::{
    ChipFamily, Flash, FlashCommand, FlashPhase, FlashTarget, FlashView, ResetAfter, ResetBefore,
};
use crate::prompt::{blank, chosen_index, is_blank, pick};
use crate::wire::catalog_of_text;

verus! {

/// Where the catalog is published.
pub const CATALOG_URL: &'static str = "https://api.okayugroup.com/ogsp/firmware/devices.json";

/// The host and port that the connectivity check tries to reach.
pub const PREFLIGHT_HOST: &'static str = "google.com:80";

/// What the connectivity check found.
#[derive(Clone, Copy, Debug, PartialEq, Eq, Structural)]
pub enum Preflight {
    /// The host answered.
    Reachable,
    /// The connection was refused: nothing is listening.
    Refused,
    /// The host could not be reached at all: no route, no name resolution.
    Unreachable,
}

/// What the operator is told when the connectivity check fails.
#[derive(Clone, Copy, Debug, PartialEq, Eq, Structural)]
pub enum Diagnostic {
    ConnectionRefused,
    ConnectionFailed,
}

/// What the shell is to do next.
#[derive(Clone, Copy, Debug, PartialEq, Eq)]
pub enum Action {
    /// List the serial transports; answer with [`Event::PortsListed`] or
    /// [`Event::PortsUnavailable`].
    ListPorts,
    /// Show the transports' names, numbered from one, and ask for a number;
    /// answer with [`Event::Reply`].
    AskEndpoint,
    /// Try to reach [`PREFLIGHT_HOST`]; answer with [`Event::Connectivity`].
    CheckConnectivity,
    /// Request [`CATALOG_URL`]; answer with [`Event::CatalogText`] or
    /// [`Event::CatalogUnavailable`].
    FetchCatalog,
    /// Show the device models' names, numbered from one, and ask for a
    /// number; answer with [`Event::Reply`].
    AskDevice,
    /// Show the latest version's label and ask whether it is to be
    /// installed: an empty reply accepts it, any other asks for the list of
    /// versions; answer with [`Event::Reply`].
    ConfirmLatest,
    /// Show the version labels in catalog order, numbered from one, and ask
    /// for a number; answer with [`Event::Reply`].
    AskVersion,
    /// Request the image of the segment with this index; answer with
    /// [`Event::SegmentBody`] or [`Event::SegmentUnavailable`].
    Download(usize),
    /// Carry out this command on the device; answer with
    /// [`Event::DeviceReport`].
    Device(FlashCommand),
    /// The run is over, with this outcome.
    Stop(Outcome),
}

impl Action {
    /// Whether the action uses the network.
    pub open spec fn uses_network(self) -> bool {
        self is CheckConnectivity || self is FetchCatalog || self is Download
    }

    /// Whether the action touches the device.
    pub open spec fn uses_device(self) -> bool {
        self is Device
    }
}

/// What came of the action that was due.
#[derive(Debug, PartialEq, Eq)]
pub enum Event {
    /// The serial transports of the host.
    PortsListed(Vec<SerialEndpoint>),
    /// The host could not list its serial transports.
    PortsUnavailable,
    /// The line that the operator typed.
    Reply(String),
    /// What the connectivity check found.
    Connectivity(Preflight),
    /// The body of the catalog response.
    CatalogText(String),
    /// The catalog request failed: unreachable, timed out, or refused by the server.
    CatalogUnavailable,
    /// The whole body of a segment.
    SegmentBody(Vec<u8>),
    /// The segment could not be retrieved in full, or the shell does not
    /// accept what came: a shell that checks the integrity of an image turns
    /// it down here.
    SegmentUnavailable,
    /// Whether the command on the device succeeded.
    DeviceReport(bool),
}

/// What an [`Event`] holds.
pub enum EventView {
    PortsListed(Seq<EndpointView>),
    PortsUnavailable,
    Reply(Seq<char>),
    Connectivity(Preflight),
    CatalogText(Seq<char>),
    CatalogUnavailable,
    SegmentBody(Seq<u8>),
    SegmentUnavailable,
    DeviceReport(bool),
}

impl View for Event {
    type V = EventView;

    open spec fn view(&self) -> EventView {
        match self {
            Event::PortsListed(endpoints) => EventView::PortsListed(endpoints_view(endpoints@)),
            Event::PortsUnavailable => EventView::PortsUnavailable,
            Event::Reply(line) => EventView::Reply(line@),
            Event::Connectivity(found) => EventView::Connectivity(*found),
            Event::CatalogText(text) => EventView::CatalogText(text@),
            Event::CatalogUnavailable => EventView::CatalogUnavailable,
            Event::SegmentBody(body) => EventView::SegmentBody(body@),
            Event::SegmentUnavailable => EventView::SegmentUnavailable,
            Event::DeviceReport(ok) => EventView::DeviceReport(*ok),
        }
    }
}

/// Where a run stands, and what it has gathered so far.
pub enum StageView {
    /// The ports are being listed.
    Enumerating,
    /// The operator is choosing among several transports.
    ChoosingEndpoint { endpoints: Seq<EndpointView> },
    /// The connectivity check is under way.
    Probing { endpoint: EndpointView },
    /// The catalog is being requested.
    LoadingCatalog { endpoint: EndpointView },
    /// The operator is choosing a device model.
    ChoosingDevice { endpoint: EndpointView, catalog: CatalogView },
    /// The operator is asked whether the latest version will do.
    ConfirmingVersion { endpoint: EndpointView, device: DeviceView },
    /// The operator is choosing a version.
    ChoosingVersion { endpoint: EndpointView, device: DeviceView },
    /// The segments are being fetched, one after the other; `fetched` are
    /// those that have come.
    Fetching { endpoint: EndpointView, files: Seq<SegmentView>, fetched: Seq<DownloadedView> },
    /// The segments are being written.
    Flashing { endpoint: EndpointView, segments: Seq<DownloadedView>, flash: FlashView },
    /// The run is over.
    Finished { outcome: Outcome, diagnostic: Option<Diagnostic> },
}

/// The stage in which a run ends with `error`.
pub open spec fn halted(error: PipelineError) -> StageView {
    StageView::Finished { outcome: Err(error), diagnostic: None }
}

/// The stage that follows the selection of `endpoint`: the network is used
/// only for a transport that is attached over USB.
pub open spec fn after_selection(endpoint: EndpointView) -> StageView {
    match usb_checked(endpoint) {
        Ok(kept) => StageView::Probing { endpoint: kept },
        Err(error) => halted(error),
    }
}

/// The stage that follows when `fetched` of the segments `files` have come:
/// the next request if one is left and its address is an absolute URL, the
/// flash transaction once all have come.
pub open spec fn after_fetch(
    endpoint: EndpointView,
    files: Seq<SegmentView>,
    fetched: Seq<DownloadedView>,
) -> StageView {
    if fetched.len() >= files.len() {
        StageView::Flashing {
            endpoint,
            segments: fetched,
            flash: FlashView::start(fetched.len()),
        }
    } else if is_absolute_url(files[fetched.len() as int].source_url) {
        StageView::Fetching { endpoint, files, fetched }
    } else {
        halted(PipelineError::DownloadError)
    }
}

impl StageView {
    /// What the shell is to do next.
    pub open spec fn action(self) -> Action {
        match self {
            StageView::Enumerating => Action::ListPorts,
            StageView::ChoosingEndpoint { .. } => Action::AskEndpoint,
            StageView::Probing { .. } => Action::CheckConnectivity,
            StageView::LoadingCatalog { .. } => Action::FetchCatalog,
            StageView::ChoosingDevice { .. } => Action::AskDevice,
            StageView::ConfirmingVersion { .. } => Action::ConfirmLatest,
            StageView::ChoosingVersion { .. } => Action::AskVersion,
            StageView::Fetching { fetched, .. } => Action::Download(fetched.len() as usize),
            StageView::Flashing { flash, .. } => Action::Device(flash.command()),
            StageView::Finished { outcome, .. } => Action::Stop(outcome),
        }
    }

    /// The choices that are shown to the operator, in order, where the
    /// action that is due asks for one of a list.
    pub open spec fn choices(self) -> Seq<Seq<char>> {
        match self {
            StageView::ChoosingEndpoint { endpoints } => endpoints.map_values(
                |e: EndpointView| e.name,
            ),
            StageView::ChoosingDevice { catalog, .. } => catalog.names(),
            StageView::ConfirmingVersion { device, .. } => seq![device.latest],
            StageView::ChoosingVersion { device, .. } => device.labels(),
            _ => Seq::empty(),
        }
    }

    /// The transport that has been selected, once one has.
    pub open spec fn endpoint(self) -> Option<EndpointView> {
        match self {
            StageView::Probing { endpoint } => Some(endpoint),
            StageView::LoadingCatalog { endpoint } => Some(endpoint),
            StageView::ChoosingDevice { endpoint, .. } => Some(endpoint),
            StageView::ConfirmingVersion { endpoint, .. } => Some(endpoint),
            StageView::ChoosingVersion { endpoint, .. } => Some(endpoint),
            StageView::Fetching { endpoint, .. } => Some(endpoint),
            StageView::Flashing { endpoint, .. } => Some(endpoint),
            _ => None,
        }
    }

    /// The address of the image that is to be requested, while segments are
    /// being fetched.
    pub open spec fn download_url(self) -> Option<Seq<char>> {
        match self {
            StageView::Fetching { files, fetched, .. } => Some(
                files[fetched.len() as int].source_url,
            ),
            _ => None,
        }
    }

    /// The segment with the index `index`, while the segments are being written.
    pub open spec fn segment(self, index: int) -> Option<DownloadedView> {
        match self {
            StageView::Flashing { segments, .. } => if 0 <= index < segments.len() {
                Some(segments[index])
            } else {
                None
            },
            _ => None,
        }
    }

    /// How the run ended, once it is over.
    pub open spec fn outcome(self) -> Option<Outcome> {
        match self {
            StageView::Finished { outcome, .. } => Some(outcome),
            _ => None,
        }
    }

    /// What the operator is told of a failed connectivity check.
    pub open spec fn diagnostic(self) -> Option<Diagnostic> {
        match self {
            StageView::Finished { diagnostic, .. } => diagnostic,
            _ => None,
        }
    }

    /// What every stage that a run can reach satisfies.
    pub open spec fn wf(self) -> bool {
        &&& match self.endpoint() {
            Some(endpoint) => endpoint.usb_info is Some,
            None => true,
        }
        &&& match self {
            StageView::ChoosingEndpoint { endpoints } => endpoints.len() >= 2,
            StageView::ChoosingDevice { catalog, .. } => catalog.wf(),
            StageView::ConfirmingVersion { device, .. } => device.wf(),
            StageView::ChoosingVersion { device, .. } => device.wf(),
            StageView::Fetching { files, fetched, .. } => {
                &&& fetched.len() < files.len()
                &&& is_absolute_url(files[fetched.len() as int].source_url)
                &&& forall|i: int|
                    0 <= i < fetched.len() ==> (#[trigger] fetched[i]).flash_offset
                        == files[i].flash_offset
            },
            StageView::Flashing { segments, flash, .. } => {
                &&& flash.wf()
                &&& flash.total == segments.len()
                &&& !(flash.phase is Failed)
            },
            _ => true,
        }
    }

    /// The stage after `event` has come of the action that was due. An event
    /// that does not answer that action changes nothing.
    pub open spec fn step(self, event: EventView) -> StageView {
        match self {
            StageView::Enumerating => match event {
                EventView::PortsUnavailable => halted(PipelineError::EnumerationError),
                EventView::PortsListed(endpoints) => match first_choice(endpoints) {
                    Ok(Some(endpoint)) => after_selection(endpoint),
                    Ok(None) => StageView::ChoosingEndpoint { endpoints },
                    Err(error) => halted(error),
                },
                _ => self,
            },
            StageView::ChoosingEndpoint { endpoints } => match event {
                EventView::Reply(reply) => match replied_choice(endpoints, reply) {
                    Ok(endpoint) => after_selection(endpoint),
                    Err(error) => halted(error),
                },
                _ => self,
            },
            StageView::Probing { endpoint } => match event {
                EventView::Connectivity(Preflight::Reachable) => StageView::LoadingCatalog {
                    endpoint,
                },
                EventView::Connectivity(Preflight::Refused) => StageView::Finished {
                    outcome: Err(PipelineError::NetworkError),
                    diagnostic: Some(Diagnostic::ConnectionRefused),
                },
                EventView::Connectivity(Preflight::Unreachable) => StageView::Finished {
                    outcome: Err(PipelineError::NetworkError),
                    diagnostic: Some(Diagnostic::ConnectionFailed),
                },
                _ => self,
            },
            StageView::LoadingCatalog { endpoint } => match event {
                EventView::CatalogUnavailable => halted(PipelineError::NetworkError),
                EventView::CatalogText(text) => match catalog_of_text(text) {
                    Some(catalog) => StageView::ChoosingDevice { endpoint, catalog },
                    None => halted(PipelineError::SchemaError),
                },
                _ => self,
            },
            StageView::ChoosingDevice { endpoint, catalog } => match event {
                EventView::Reply(reply) => match chosen_index(reply, catalog.devices.len()) {
                    Some(index) => StageView::ConfirmingVersion {
                        endpoint,
                        device: catalog.devices[index as int],
                    },
                    None => halted(PipelineError::InvalidSelection),
                },
                _ => self,
            },
            StageView::ConfirmingVersion { endpoint, device } => match event {
                EventView::Reply(reply) => if is_blank(reply) {
                    after_fetch(endpoint, device.mapping()[device.latest].files, Seq::empty())
                } else {
                    StageView::ChoosingVersion { endpoint, device }
                },
                _ => self,
            },
            StageView::ChoosingVersion { endpoint, device } => match event {
                EventView::Reply(reply) => match chosen_index(reply, device.versions.len()) {
                    Some(index) => after_fetch(
                        endpoint,
                        device.versions[index as int].1.files,
                        Seq::empty(),
                    ),
                    None => halted(PipelineError::InvalidSelection),
                },
                _ => self,
            },
            StageView::Fetching { endpoint, files, fetched } => match event {
                EventView::SegmentUnavailable => halted(PipelineError::DownloadError),
                EventView::SegmentBody(body) => after_fetch(
                    endpoint,
                    files,
                    fetched.push(
                        DownloadedView {
                            flash_offset: files[fetched.len() as int].flash_offset,
                            data: body,
                        },
                    ),
                ),
                _ => self,
            },
            StageView::Flashing { endpoint, segments, flash } => match event {
                EventView::DeviceReport(ok) => if flash.phase == FlashPhase::Done {
                    StageView::Finished { outcome: Ok(()), diagnostic: None }
                } else {
                    match flash.step(ok).phase {
                        FlashPhase::Failed(error) => halted(error),
                        _ => StageView::Flashing { endpoint, segments, flash: flash.step(ok) },
                    }
                },
                _ => self,
            },
            StageView::Finished { .. } => self,
        }
    }

    /// The stage after a run of events.
    pub open spec fn run(self, events: Seq<EventView>) -> StageView
        decreases events.len(),
    {
        if events.len() == 0 {
            self
        } else {
            self.step(events.first()).run(events.drop_first())
        }
    }
}

/// What a [`Pipeline`] holds: the stage of the run, and the chip family and
/// reset policies that its flash transaction will use.
pub struct PipelineView {
    pub chip: ChipFamily,
    pub reset_before: ResetBefore,
    pub reset_after: ResetAfter,
    pub stage: StageView,
}

impl PipelineView {
    /// The run after `event` has come of the action that was due.
    pub open spec fn step(self, event: EventView) -> PipelineView {
        PipelineView { stage: self.stage.step(event), ..self }
    }
}

enum Stage {
    Enumerating,
    ChoosingEndpoint { endpoints: Vec<SerialEndpoint> },
    Probing { endpoint: SerialEndpoint },
    LoadingCatalog { endpoint: SerialEndpoint },
    ChoosingDevice { endpoint: SerialEndpoint, catalog: Catalog },
    ConfirmingVersion { endpoint: SerialEndpoint, device: DeviceEntry },
    ChoosingVersion { endpoint: SerialEndpoint, device: DeviceEntry },
    Fetching { endpoint: SerialEndpoint, version: VersionEntry, fetched: Vec<DownloadedSegment> },
    Flashing { endpoint: SerialEndpoint, segments: Vec<DownloadedSegment>, flash: Flash },
    Finished { outcome: Outcome, diagnostic: Option<Diagnostic> },
}

impl Stage {
    spec fn view(self) -> StageView {
        match self {
            Stage::Enumerating => StageView::Enumerating,
            Stage::ChoosingEndpoint { endpoints } => StageView::ChoosingEndpoint {
                endpoints: endpoints_view(endpoints@),
            },
            Stage::Probing { endpoint } => StageView::Probing { endpoint: endpoint@ },
            Stage::LoadingCatalog { endpoint } => StageView::LoadingCatalog { endpoint: endpoint@ },
            Stage::ChoosingDevice { endpoint, catalog } => StageView::ChoosingDevice {
                endpoint: endpoint@,
                catalog: catalog@,
            },
            Stage::ConfirmingVersion { endpoint, device } => StageView::ConfirmingVersion {
                endpoint: endpoint@,
                device: device@,
            },
            Stage::ChoosingVersion { endpoint, device } => StageView::ChoosingVersion {
                endpoint: endpoint@,
                device: device@,
            },
            Stage::Fetching { endpoint, version, fetched } => StageView::Fetching {
                endpoint: endpoint@,
                files: version@.files,
                fetched: downloads_view(fetched@),
            },
            Stage::Flashing { endpoint, segments, flash } => StageView::Flashing {
                endpoint: endpoint@,
                segments: downloads_view(segments@),
                flash: flash@,
            },
            Stage::Finished { outcome, diagnostic } => StageView::Finished { outcome, diagnostic },
        }
    }
}

/// The stage in which a run ends with `error`.
fn halt(error: PipelineError) -> (stage: Stage)
    ensures
        stage.view() == halted(error),
        stage.view().wf(),
{
    Stage::Finished { outcome: Err(error), diagnostic: None }
}

/// The stage that follows the selection of `endpoint`.
fn selected(endpoint: SerialEndpoint) -> (stage: Stage)
    ensures
        stage.view() == after_selection(endpoint@),
        stage.view().wf(),
{
    match require_usb(&endpoint) {
        Ok(_) => Stage::Probing { endpoint },
        Err(error) => halt(error),
    }
}

/// The stage that follows when `fetched` of the segments of `version` have come.
fn proceed(
    endpoint: SerialEndpoint,
    version: VersionEntry,
    fetched: Vec<DownloadedSegment>,
) -> (stage: Stage)
    requires
        endpoint@.usb_info is Some,
        fetched@.len() <= version@.files.len(),
        forall|i: int|
            0 <= i < fetched@.len() ==> (#[trigger] downloads_view(fetched@)[i]).flash_offset
                == version@.files[i].flash_offset,
    ensures
        stage.view() == after_fetch(endpoint@, version@.files, downloads_view(fetched@)),
        stage.view().wf(),
{
    if fetched.len() >= version.files.len() {
        let flash = Flash::new(fetched.len());
        Stage::Flashing { endpoint, segments: fetched, flash }
    } else {
        match request_url(&version.files[fetched.len()]) {
            Ok(_) => Stage::Fetching { endpoint, version, fetched },
            Err(error) => halt(error),
        }
    }
}

/// A provisioning run in progress.
pub struct Pipeline {
    chip: ChipFamily,
    reset_before: ResetBefore,
    reset_after: ResetAfter,
    stage: Stage,
}

impl View for Pipeline {
    type V = PipelineView;

    closed spec fn view(&self) -> PipelineView {
        PipelineView {
            chip: self.chip,
            reset_before: self.reset_before,
            reset_after: self.reset_after,
            stage: self.stage.view(),
        }
    }
}

impl Pipeline {
    #[verifier::type_invariant]
    spec fn inv(self) -> bool {
        self@.stage.wf()
    }

    /// A run that has not started, for a target of the chip family `chip`,
    /// with the usual reset policies: the default reset sequence before the
    /// handshake, a hard reset once everything is written.
    pub fn new(chip: ChipFamily) -> (pipeline: Pipeline)
        ensures
            pipeline@ == (PipelineView {
                chip,
                reset_before: ResetBefore::DefaultReset,
                reset_after: ResetAfter::HardReset,
                stage: StageView::Enumerating,
            }),
    {
        Pipeline {
            chip,
            reset_before: ResetBefore::DefaultReset,
            reset_after: ResetAfter::HardReset,
            stage: Stage::Enumerating,
        }
    }

    /// The same run with other reset policies.
    pub fn with_resets(self, reset_before: ResetBefore, reset_after: ResetAfter) -> (pipeline:
        Pipeline)
        ensures
            pipeline@ == (PipelineView { reset_before, reset_after, ..self@ }),
    {
        proof {
            use_type_invariant(&self);
        }
        Pipeline { chip: self.chip, reset_before, reset_after, stage: self.stage }
    }

    /// The chip family of the target.
    pub fn chip(&self) -> (chip: ChipFamily)
        ensures
            chip == self@.chip,
    {
        self.chip
    }

    /// How the target is reset before the handshake.
    pub fn reset_before(&self) -> (policy: ResetBefore)
        ensures
            policy == self@.reset_before,
    {
        self.reset_before
    }

    /// What is done to the target once everything is written.
    pub fn reset_after(&self) -> (policy: ResetAfter)
        ensures
            policy == self@.reset_after,
    {
        self.reset_after
    }

    /// What the shell is to do next.
    pub fn action(&self) -> (action: Action)
        ensures
            action == self@.stage.action(),
            self@.stage.wf(),
    {
        proof {
            use_type_invariant(self);
        }
        match &self.stage {
            Stage::Enumerating => Action::ListPorts,
            Stage::ChoosingEndpoint { .. } => Action::AskEndpoint,
            Stage::Probing { .. } => Action::CheckConnectivity,
            Stage::LoadingCatalog { .. } => Action::FetchCatalog,
            Stage::ChoosingDevice { .. } => Action::AskDevice,
            Stage::ConfirmingVersion { .. } => Action::ConfirmLatest,
            Stage::ChoosingVersion { .. } => Action::AskVersion,
            Stage::Fetching { fetched, .. } => Action::Download(fetched.len()),
            Stage::Flashing { flash, .. } => Action::Device(flash.command()),
            Stage::Finished { outcome, .. } => Action::Stop(*outcome),
        }
    }

    /// The choices to show to the operator, in order, where the action that
    /// is due asks for one of a list: the names of the transports, the names
    /// of the device models, the label of the latest version, or the version
    /// labels in catalog order.
    pub fn choices(&self) -> (choices: Vec<String>)
        ensures
            choices@.map_values(|c: String| c@) == self@.stage.choices(),
    {
        match &self.stage {
            Stage::ChoosingEndpoint { endpoints } => {
                let mut names: Vec<String> = Vec::new();
                let mut i: usize = 0;
                while i < endpoints.len()
                    invariant
                        i <= endpoints.len(),
                        names.len() == i,
                        forall|j: int|
                            0 <= j < i ==> (#[trigger] names@[j])@ == endpoints@[j].name@,
                    decreases endpoints.len() - i,
                {
                    names.push(endpoints[i].name.clone());
                    i += 1;
                }
                names
            },
            Stage::ChoosingDevice { catalog, .. } => catalog.names(),
            Stage::ConfirmingVersion { device, .. } => {
                let mut labels: Vec<String> = Vec::new();
                labels.push(device.latest().to_owned());
                labels
            },
            Stage::ChoosingVersion { device, .. } => device.labels(),
            _ => {
                let none: Vec<String> = Vec::new();
                none
            },
        }
    }

    /// The transport that has been selected, once one has.
    pub fn endpoint(&self) -> (endpoint: Option<&SerialEndpoint>)
        ensures
            match endpoint {
                Some(e) => self@.stage.endpoint() == Some(e@),
                None => self@.stage.endpoint() is None,
            },
    {
        match &self.stage {
            Stage::Probing { endpoint } => Some(endpoint),
            Stage::LoadingCatalog { endpoint } => Some(endpoint),
            Stage::ChoosingDevice { endpoint, .. } => Some(endpoint),
            Stage::ConfirmingVersion { endpoint, .. } => Some(endpoint),
            Stage::ChoosingVersion { endpoint, .. } => Some(endpoint),
            Stage::Fetching { endpoint, .. } => Some(endpoint),
            Stage::Flashing { endpoint, .. } => Some(endpoint),
            _ => None,
        }
    }

    /// What the flash transaction is aimed at, once a transport is selected:
    /// the transport, with the chip family and reset policies of the run.
    pub fn target(&self) -> (target: Option<FlashTarget>)
        ensures
            match target {
                Some(t) => self@.stage.endpoint() == Some(t@.endpoint) && t@.chip == self@.chip
                    && t@.reset_before == self@.reset_before && t@.reset_after
                    == self@.reset_after,
                None => self@.stage.endpoint() is None,
            },
    {
        match self.endpoint() {
            Some(endpoint) => Some(
                FlashTarget {
                    endpoint: endpoint.duplicate(),
                    chip: self.chip,
                    reset_before: self.reset_before,
                    reset_after: self.reset_after,
                },
            ),
            None => None,
        }
    }

    /// The address of the image that is to be requested, while segments are
    /// being fetched.
    pub fn download_url(&self) -> (url: Option<&str>)
        ensures
            match url {
                Some(u) => self@.stage.download_url() == Some(u@) && is_absolute_url(u@),
                None => self@.stage.download_url() is None,
            },
    {
        proof {
            use_type_invariant(self);
        }
        match &self.stage {
            Stage::Fetching { version, fetched, .. } => Some(
                version.files[fetched.len()].source_url.as_str(),
            ),
            _ => None,
        }
    }

    /// The segment with the index `index`, while the segments are being written.
    pub fn segment(&self, index: usize) -> (segment: Option<&DownloadedSegment>)
        ensures
            match segment {
                Some(s) => self@.stage.segment(index as int) == Some(s@),
                None => self@.stage.segment(index as int) is None,
            },
    {
        match &self.stage {
            Stage::Flashing { segments, .. } => if index < segments.len() {
                Some(&segments[index])
            } else {
                None
            },
            _ => None,
        }
    }

    /// How the run ended; `None` while it is under way.
    pub fn outcome(&self) -> (outcome: Option<Outcome>)
        ensures
            outcome == self@.stage.outcome(),
    {
        match &self.stage {
            Stage::Finished { outcome, .. } => Some(*outcome),
            _ => None,
        }
    }

    /// What the operator is told of a failed connectivity check.
    pub fn diagnostic(&self) -> (diagnostic: Option<Diagnostic>)
        ensures
            diagnostic == self@.stage.diagnostic(),
    {
        match &self.stage {
            Stage::Finished { diagnostic, .. } => *diagnostic,
            _ => None,
        }
    }

    /// Takes note of what came of the action that was due.
    pub fn advance(self, event: Event) -> (next: Pipeline)
        ensures
            next@ == self@.step(event@),
            next@.stage.wf(),
    {
        proof {
            use_type_invariant(&self);
        }
        let Pipeline { chip, reset_before, reset_after, stage } = self;
        let stage = match stage {
            Stage::Enumerating => on_ports(event),
            Stage::ChoosingEndpoint { endpoints } => on_endpoint_reply(endpoints, event),
            Stage::Probing { endpoint } => on_connectivity(endpoint, event),
            Stage::LoadingCatalog { endpoint } => on_catalog(endpoint, event),
            Stage::ChoosingDevice { endpoint, catalog } => on_device_reply(
                endpoint,
                catalog,
                event,
            ),
            Stage::ConfirmingVersion { endpoint, device } => on_confirmation(
                endpoint,
                device,
                event,
            ),
            Stage::ChoosingVersion { endpoint, device } => on_version_reply(
                endpoint,
                device,
                event,
            ),
            Stage::Fetching { endpoint, version, fetched } => on_segment(
                endpoint,
                version,
                fetched,
                event,
            ),
            Stage::Flashing { endpoint, segments, flash } => on_report(
                endpoint,
                segments,
                flash,
                event,
            ),
            Stage::Finished { outcome, diagnostic } => Stage::Finished { outcome, diagnostic },
        };
        Pipeline { chip, reset_before, reset_after, stage }
    }
}

fn on_ports(event: Event) -> (next: Stage)
    ensures
        next.view() == StageView::Enumerating.step(event@),
        next.view().wf(),
{
    match event {
        Event::PortsUnavailable => halt(PipelineError::EnumerationError),
        Event::PortsListed(endpoints) => match select(&endpoints) {
            Ok(Selection::Taken(endpoint)) => selected(endpoint.duplicate()),
            Ok(Selection::Ask) => Stage::ChoosingEndpoint { endpoints },
            Err(error) => halt(error),
        },
        _ => Stage::Enumerating,
    }
}

fn on_endpoint_reply(endpoints: Vec<SerialEndpoint>, event: Event) -> (next: Stage)
    requires
        endpoints@.len() >= 2,
    ensures
        next.view() == (StageView::ChoosingEndpoint {
            endpoints: endpoints_view(endpoints@),
        }).step(event@),
        next.view().wf(),
{
    match event {
        Event::Reply(reply) => match select_by_reply(&endpoints, reply.as_str()) {
            Ok(endpoint) => selected(endpoint.duplicate()),
            Err(error) => halt(error),
        },
        _ => Stage::ChoosingEndpoint { endpoints },
    }
}

fn on_connectivity(endpoint: SerialEndpoint, event: Event) -> (next: Stage)
    requires
        endpoint@.usb_info is Some,
    ensures
        next.view() == (StageView::Probing { endpoint: endpoint@ }).step(event@),
        next.view().wf(),
{
    match event {
        Event::Connectivity(Preflight::Reachable) => Stage::LoadingCatalog { endpoint },
        Event::Connectivity(Preflight::Refused) => Stage::Finished {
            outcome: Err(PipelineError::NetworkError),
            diagnostic: Some(Diagnostic::ConnectionRefused),
        },
        Event::Connectivity(Preflight::Unreachable) => Stage::Finished {
            outcome: Err(PipelineError::NetworkError),
            diagnostic: Some(Diagnostic::ConnectionFailed),
        },
        _ => Stage::Probing { endpoint },
    }
}

fn on_catalog(endpoint: SerialEndpoint, event: Event) -> (next: Stage)
    requires
        endpoint@.usb_info is Some,
    ensures
        next.view() == (StageView::LoadingCatalog { endpoint: endpoint@ }).step(event@),
        next.view().wf(),
{
    match event {
        Event::CatalogUnavailable => halt(PipelineError::NetworkError),
        Event::CatalogText(text) => match Catalog::load(text.as_str()) {
            Ok(catalog) => Stage::ChoosingDevice { endpoint, catalog },
            Err(error) => halt(error),
        },
        _ => Stage::LoadingCatalog { endpoint },
    }
}

fn on_device_reply(endpoint: SerialEndpoint, catalog: Catalog, event: Event) -> (next: Stage)
    requires
        endpoint@.usb_info is Some,
        catalog@.wf(),
    ensures
        next.view() == (StageView::ChoosingDevice {
            endpoint: endpoint@,
            catalog: catalog@,
        }).step(event@),
        next.view().wf(),
{
    match event {
        Event::Reply(reply) => match pick(reply.as_str(), catalog.device_count()) {
            Ok(index) => match catalog.into_device(index) {
                Some(device) => Stage::ConfirmingVersion { endpoint, device },
                None => halt(PipelineError::InvalidSelection),
            },
            Err(error) => halt(error),
        },
        _ => Stage::ChoosingDevice { endpoint, catalog },
    }
}

fn on_confirmation(endpoint: SerialEndpoint, device: DeviceEntry, event: Event) -> (next: Stage)
    requires
        endpoint@.usb_info is Some,
        device@.wf(),
    ensures
        next.view() == (StageView::ConfirmingVersion {
            endpoint: endpoint@,
            device: device@,
        }).step(event@),
        next.view().wf(),
{
    match event {
        Event::Reply(reply) => if blank(reply.as_str()) {
            let fetched: Vec<DownloadedSegment> = Vec::new();
            assert(downloads_view(fetched@) =~= Seq::empty());
            match resolve(&device, None) {
                Ok(version) => proceed(endpoint, version.duplicate(), fetched),
                Err(error) => halt(error),
            }
        } else {
            Stage::ChoosingVersion { endpoint, device }
        },
        _ => Stage::ConfirmingVersion { endpoint, device },
    }
}

fn on_version_reply(endpoint: SerialEndpoint, device: DeviceEntry, event: Event) -> (next: Stage)
    requires
        endpoint@.usb_info is Some,
        device@.wf(),
    ensures
        next.view() == (StageView::ChoosingVersion {
            endpoint: endpoint@,
            device: device@,
        }).step(event@),
        next.view().wf(),
{
    match event {
        Event::Reply(reply) => match pick(reply.as_str(), device.version_count()) {
            Ok(index) => {
                let fetched: Vec<DownloadedSegment> = Vec::new();
                assert(downloads_view(fetched@) =~= Seq::empty());
                let label = device.label_at(index);
                proof {
                    // The label at `index` is the label of no other version.
                    let labels = device@.labels();
                    assert(labels[index as int] == label->Some_0@);
                    assert(labels.index_of(label->Some_0@) == index);
                }
                match resolve(&device, label) {
                    Ok(version) => proceed(endpoint, version.duplicate(), fetched),
                    Err(error) => halt(error),
                }
            },
            Err(error) => halt(error),
        },
        _ => Stage::ChoosingVersion { endpoint, device },
    }
}

fn on_segment(
    endpoint: SerialEndpoint,
    version: VersionEntry,
    fetched: Vec<DownloadedSegment>,
    event: Event,
) -> (next: Stage)
    requires
        (StageView::Fetching {
            endpoint: endpoint@,
            files: version@.files,
            fetched: downloads_view(fetched@),
        }).wf(),
    ensures
        next.view() == (StageView::Fetching {
            endpoint: endpoint@,
            files: version@.files,
            fetched: downloads_view(fetched@),
        }).step(event@),
        next.view().wf(),
{
    match event {
        Event::SegmentUnavailable => halt(PipelineError::DownloadError),
        Event::SegmentBody(data) => {
            let ghost before = downloads_view(fetched@);
            let mut fetched = fetched;
            let flash_offset: u32 = version.files[fetched.len()].flash_offset;
            fetched.push(DownloadedSegment { flash_offset, data });
            proof {
                let after = downloads_view(fetched@);
                assert(after =~= before.push(
                    DownloadedView { flash_offset, data: data@ },
                ));
            }
            proceed(endpoint, version, fetched)
        },
        _ => Stage::Fetching { endpoint, version, fetched },
    }
}

fn on_report(
    endpoint: SerialEndpoint,
    segments: Vec<DownloadedSegment>,
    flash: Flash,
    event: Event,
) -> (next: Stage)
    requires
        (StageView::Flashing {
            endpoint: endpoint@,
            segments: downloads_view(segments@),
            flash: flash@,
        }).wf(),
    ensures
        next.view() == (StageView::Flashing {
            endpoint: endpoint@,
            segments: downloads_view(segments@),
            flash: flash@,
        }).step(event@),
        next.view().wf(),
{
    match event {
        Event::DeviceReport(ok) => match flash.phase() {
            FlashPhase::Done => Stage::Finished { outcome: Ok(()), diagnostic: None },
            _ => {
                let flash = flash.advance(ok);
                match flash.phase() {
                    FlashPhase::Failed(error) => halt(error),
                    _ => Stage::Flashing { endpoint, segments, flash },
                }
            },
        },
        _ => Stage::Flashing { endpoint, segments, flash },
    }
}

/// Every stage that follows a stage of a run is a stage of a run.
pub proof fn lemma_step_keeps_shape(stage: StageView, event: EventView)
    requires
        stage.wf(),
    ensures
        stage.step(event).wf(),
{
    match (stage, event) {
        (StageView::Flashing { flash, .. }, EventView::DeviceReport(ok)) => {
            crate::flash::lemma_step_keeps_shape(flash, ok);
        },
        _ => {},
    }
}

/// Every stage that a run reaches from a stage of a run is a stage of a run.
pub proof fn lemma_run_keeps_shape(stage: StageView, events: Seq<EventView>)
    requires
        stage.wf(),
    ensures
        stage.run(events).wf(),
    decreases events.len(),
{
    if events.len() > 0 {
        lemma_step_keeps_shape(stage, events.first());
        lemma_run_keeps_shape(stage.step(events.first()), events.drop_first());
    }
}

/// A run that is over stays over, with the same outcome, whatever is handed
/// to it: nothing is retried.
pub proof fn lemma_finished_stays(stage: StageView, events: Seq<EventView>)
    requires
        stage is Finished,
    ensures
        stage.run(events) == stage,
    decreases events.len(),
{
    if events.len() > 0 {
        lemma_finished_stays(stage, events.drop_first());
    }
}

/// The network and the device are used only once a transport that is
/// attached over USB has been selected.
pub proof fn lemma_usb_comes_first(stage: StageView)
    requires
        stage.wf(),
        stage.action().uses_network() || stage.action().uses_device(),
    ensures
        stage.endpoint() is Some,
        stage.endpoint()->Some_0.usb_info is Some,
{
}

/// With no serial transport the run ends at the selection with
/// `NoDeviceFound`, and the network is never used.
pub proof fn lemma_no_port_no_network(later: Seq<EventView>)
    ensures
        StageView::Enumerating.step(EventView::PortsListed(Seq::empty())).run(later) == halted(
            PipelineError::NoDeviceFound,
        ),
        !StageView::Enumerating.step(EventView::PortsListed(Seq::empty())).run(
            later,
        ).action().uses_network(),
{
    lemma_finished_stays(halted(PipelineError::NoDeviceFound), later);
}

/// A single transport is taken without the operator being asked: the next
/// action is the connectivity check where the transport is attached over
/// USB, and the end of the run with `NotUsbDevice` where it is not.
pub proof fn lemma_single_port_is_taken(endpoint: EndpointView)
    ensures
        first_choice(seq![endpoint]) == Ok::<Option<EndpointView>, PipelineError>(Some(endpoint)),
        StageView::Enumerating.step(EventView::PortsListed(seq![endpoint])) == after_selection(
            endpoint,
        ),
        after_selection(endpoint) == if endpoint.usb_info is Some {
            StageView::Probing { endpoint }
        } else {
            halted(PipelineError::NotUsbDevice)
        },
{
}

/// When a segment cannot be fetched the run ends with `DownloadError`, and
/// the device is never touched: nothing is flashed from a partial download.
pub proof fn lemma_failed_download_never_flashes(stage: StageView, later: Seq<EventView>)
    requires
        stage is Fetching,
    ensures
        stage.step(EventView::SegmentUnavailable).run(later) == halted(
            PipelineError::DownloadError,
        ),
        !stage.step(EventView::SegmentUnavailable).run(later).action().uses_device(),
{
    lemma_finished_stays(halted(PipelineError::DownloadError), later);
}

/// The flash transaction starts only when every segment has come, and it
/// gets them in the order of the version, each with its segment's offset.
pub proof fn lemma_flash_gets_every_segment(stage: StageView, body: Seq<u8>)
    requires
        stage.wf(),
        stage is Fetching,
        stage.step(EventView::SegmentBody(body)) is Flashing,
    ensures
        ({
            let files = stage->Fetching_files;
            let next = stage.step(EventView::SegmentBody(body));
            let segments = next->Flashing_segments;
            &&& segments.len() == files.len()
            &&& forall|i: int|
                0 <= i < files.len() ==> (#[trigger] segments[i]).flash_offset
                    == files[i].flash_offset
            &&& segments.last().data == body
            &&& next->Flashing_flash == FlashView::start(files.len())
        }),
{
    lemma_step_keeps_shape(stage, EventView::SegmentBody(body));
}

/// When the handshake fails after the port has opened, the run ends with
/// `HandshakeError` and no segment is written.
pub proof fn lemma_failed_handshake_ends_run(stage: StageView, later: Seq<EventView>)
    requires
        stage.wf(),
        stage is Flashing,
        stage->Flashing_flash.phase == FlashPhase::PortOpened,
    ensures
        stage.step(EventView::DeviceReport(false)).run(later) == halted(
            PipelineError::HandshakeError,
        ),
        !stage.step(EventView::DeviceReport(false)).run(later).action().uses_device(),
{
    lemma_finished_stays(halted(PipelineError::HandshakeError), later);
}

/// A run ends well only from the flash transaction, and only once every
/// segment is written.
pub proof fn lemma_success_needs_every_write(stage: StageView, event: EventView)
    requires
        stage.wf(),
        !(stage is Finished),
        stage.step(event).outcome() == Some(Ok::<(), PipelineError>(())),
    ensures
        stage is Flashing,
        stage->Flashing_flash.phase == FlashPhase::Done,
        stage->Flashing_flash.written == stage->Flashing_segments.len(),
{
}

/// How far a run has come: the stages in the order in which a run goes
/// through them.
pub open spec fn progress(stage: StageView) -> nat {
    match stage {
        StageView::Enumerating => 0,
        StageView::ChoosingEndpoint { .. } => 1,
        StageView::Probing { .. } => 2,
        StageView::LoadingCatalog { .. } => 3,
        StageView::ChoosingDevice { .. } => 4,
        StageView::ConfirmingVersion { .. } => 5,
        StageView::ChoosingVersion { .. } => 6,
        StageView::Fetching { .. } => 7,
        StageView::Flashing { .. } => 8,
        StageView::Finished { .. } => 9,
    }
}

/// A run never goes back to an earlier stage; while it fetches, nothing that
/// has come is given up, and while it flashes, nothing that is written is
/// written again.
pub proof fn lemma_no_way_back(stage: StageView, event: EventView)
    requires
        stage.wf(),
    ensures
        progress(stage.step(event)) >= progress(stage),
        stage is Fetching && stage.step(event) is Fetching ==> stage.step(
            event,
        )->Fetching_fetched.len() >= stage->Fetching_fetched.len(),
        stage is Flashing && stage.step(event) is Flashing ==> stage.step(
            event,
        )->Flashing_flash.written >= stage->Flashing_flash.written,
{
    match (stage, event) {
        (StageView::Flashing { flash, .. }, EventView::DeviceReport(ok)) => {
            crate::flash::lemma_step_keeps_shape(flash, ok);
        },
        _ => {},
    }
}

/// A write that falls due is the write of a segment that the run holds, and
/// of the one that follows those that are written.
pub proof fn lemma_write_has_its_segment(stage: StageView, index: usize)
    requires
        stage.wf(),
        stage.action() == Action::Device(FlashCommand::Write(index)),
        stage is Flashing ==> stage->Flashing_segments.len() <= usize::MAX,
    ensures
        stage.segment(index as int) is Some,
        stage is Flashing && stage->Flashing_flash.written == index,
{
}

} // verus!
