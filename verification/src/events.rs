//! The events that flow between the services. Nothing else crosses from one
//! service to another.

use crate::categories::{CategoriesResponse, CategoriesResponseView};
use vstd::prelude::*;

verus! {

/// Whether a unit of work begins or ends.
#[derive(Debug, Clone, Copy, PartialEq, Eq, Structural)]
pub enum ActiveCount {
    Increment,
    Decrement,
}

/// An activity delta, tagged with the service that reports it.
#[derive(Debug, Clone, Copy, PartialEq, Eq, Structural)]
pub enum StateUpdate {
    Categories(ActiveCount),
    Fetcher(ActiveCount),
    FileWriter(ActiveCount),
}

/// The relative location of one page of a listing.
#[derive(Debug, PartialEq, Eq)]
pub struct RequestUrl {
    pub url: String,
}

/// The mathematical value of a [`RequestUrl`].
pub struct RequestUrlView {
    pub url: Seq<char>,
}

impl View for RequestUrl {
    type V = RequestUrlView;

    open spec fn view(&self) -> RequestUrlView {
        RequestUrlView { url: self.url@ }
    }
}

impl DeepView for RequestUrl {
    type V = RequestUrlView;

    #[verifier::inline]
    open spec fn deep_view(&self) -> RequestUrlView {
        self.view()
    }
}

impl Clone for RequestUrl {
    fn clone(&self) -> (r: Self)
        ensures
            r@ == self@,
    {
        RequestUrl { url: self.url.clone() }
    }
}

/// A request to retrieve something from the remote API.
#[derive(Debug, PartialEq, Eq)]
pub enum FetcherRequest {
    Categories(RequestUrl),
}

/// The mathematical value of a [`FetcherRequest`].
pub enum FetcherRequestView {
    Categories(RequestUrlView),
}

impl View for FetcherRequest {
    type V = FetcherRequestView;

    open spec fn view(&self) -> FetcherRequestView {
        match self {
            FetcherRequest::Categories(request) => FetcherRequestView::Categories(request@),
        }
    }
}

impl DeepView for FetcherRequest {
    type V = FetcherRequestView;

    #[verifier::inline]
    open spec fn deep_view(&self) -> FetcherRequestView {
        self.view()
    }
}

impl Clone for FetcherRequest {
    fn clone(&self) -> (r: Self)
        ensures
            r@ == self@,
    {
        match self {
            FetcherRequest::Categories(request) => FetcherRequest::Categories(request.clone()),
        }
    }
}

/// The outcome of a fetch.
#[derive(Debug, PartialEq, Eq)]
pub enum FetcherResponse {
    Categories(CategoriesResponse),
    FetchFailed { error: String },
}

/// The mathematical value of a [`FetcherResponse`].
pub enum FetcherResponseView {
    Categories(CategoriesResponseView),
    FetchFailed { error: Seq<char> },
}

impl View for FetcherResponse {
    type V = FetcherResponseView;

    open spec fn view(&self) -> FetcherResponseView {
        match self {
            FetcherResponse::Categories(page) => FetcherResponseView::Categories(page@),
            FetcherResponse::FetchFailed { error } => FetcherResponseView::FetchFailed {
                error: error@,
            },
        }
    }
}

impl DeepView for FetcherResponse {
    type V = FetcherResponseView;

    #[verifier::inline]
    open spec fn deep_view(&self) -> FetcherResponseView {
        self.view()
    }
}

impl Clone for FetcherResponse {
    fn clone(&self) -> (r: Self)
        ensures
            r@ == self@,
    {
        match self {
            FetcherResponse::Categories(page) => FetcherResponse::Categories(page.clone()),
            FetcherResponse::FetchFailed { error } => FetcherResponse::FetchFailed {
                error: error.clone(),
            },
        }
    }
}

/// A request to persist content under a path relative to the output
/// directory.
#[derive(Debug, PartialEq, Eq)]
#[allow(inconsistent_fields)]
pub enum FileRequest {
    Markdown { path: String, data: String },
    Image { path: String, data: Vec<u8> },
}

/// The mathematical value of a [`FileRequest`].
#[allow(inconsistent_fields)]
pub enum FileRequestView {
    Markdown { path: Seq<char>, data: Seq<char> },
    Image { path: Seq<char>, data: Seq<u8> },
}

impl View for FileRequest {
    type V = FileRequestView;

    open spec fn view(&self) -> FileRequestView {
        match self {
            FileRequest::Markdown { path, data } => FileRequestView::Markdown {
                path: path@,
                data: data@,
            },
            FileRequest::Image { path, data } => FileRequestView::Image { path: path@, data: data@ },
        }
    }
}

impl DeepView for FileRequest {
    type V = FileRequestView;

    #[verifier::inline]
    open spec fn deep_view(&self) -> FileRequestView {
        self.view()
    }
}

impl Clone for FileRequest {
    fn clone(&self) -> (r: Self)
        ensures
            r@ == self@,
    {
        match self {
            FileRequest::Markdown { path, data } => FileRequest::Markdown {
                path: path.clone(),
                data: data.clone(),
            },
            FileRequest::Image { path, data } => {
                let bytes = data.clone();
                FileRequest::Image { path: path.clone(), data: bytes }
            },
        }
    }
}

/// Everything that can travel over the bus.
#[derive(Debug, PartialEq, Eq)]
pub enum EventType {
    FetcherRequest(FetcherRequest),
    FetcherResponse(FetcherResponse),
    FileRequest(FileRequest),
    UpdateState(StateUpdate),
    Shutdown,
}

/// The mathematical value of an [`EventType`].
pub enum EventView {
    FetcherRequest(FetcherRequestView),
    FetcherResponse(FetcherResponseView),
    FileRequest(FileRequestView),
    UpdateState(StateUpdate),
    Shutdown,
}

impl View for EventType {
    type V = EventView;

    open spec fn view(&self) -> EventView {
        match self {
            EventType::FetcherRequest(request) => EventView::FetcherRequest(request@),
            EventType::FetcherResponse(response) => EventView::FetcherResponse(response@),
            EventType::FileRequest(request) => EventView::FileRequest(request@),
            EventType::UpdateState(update) => EventView::UpdateState(*update),
            EventType::Shutdown => EventView::Shutdown,
        }
    }
}

impl DeepView for EventType {
    type V = EventView;

    #[verifier::inline]
    open spec fn deep_view(&self) -> EventView {
        self.view()
    }
}

impl Clone for EventType {
    fn clone(&self) -> (r: Self)
        ensures
            r@ == self@,
    {
        match self {
            EventType::FetcherRequest(request) => EventType::FetcherRequest(request.clone()),
            EventType::FetcherResponse(response) => EventType::FetcherResponse(response.clone()),
            EventType::FileRequest(request) => EventType::FileRequest(request.clone()),
            EventType::UpdateState(update) => EventType::UpdateState(*update),
            EventType::Shutdown => EventType::Shutdown,
        }
    }
}

} // verus!
