//! The file service: turns file requests into writes below a fixed base
//! directory.

use crate::bus::{Received, ReceivedView};
use crate::events::{ActiveCount, EventType, EventView, FileRequest, FileRequestView, StateUpdate};
use vstd::prelude::*;
use vstd::string::*;
use vstd::utf8::encode_utf8;

verus! {

/// One write to perform: the resolved path and the bytes to put there.
#[derive(Debug, PartialEq, Eq)]
pub struct WriteJob {
    pub path: String,
    pub data: Vec<u8>,
}

/// The mathematical value of a [`WriteJob`].
pub struct WriteJobView {
    pub path: Seq<char>,
    pub data: Seq<u8>,
}

impl View for WriteJob {
    type V = WriteJobView;

    open spec fn view(&self) -> WriteJobView {
        WriteJobView { path: self.path@, data: self.data@ }
    }
}

impl DeepView for WriteJob {
    type V = WriteJobView;

    #[verifier::inline]
    open spec fn deep_view(&self) -> WriteJobView {
        self.view()
    }
}

/// What the file service does in answer to one received item: publish
/// `before`, perform `write`, then publish `after` whether or not the write
/// succeeded.
#[derive(Debug, PartialEq, Eq)]
pub struct WriterTurn {
    pub before: Vec<EventType>,
    pub write: Option<WriteJob>,
    pub after: Vec<EventType>,
    /// Whether the service goes on receiving.
    pub running: bool,
}

/// The mathematical value of a [`WriterTurn`].
pub struct WriterTurnView {
    pub before: Seq<EventView>,
    pub write: Option<WriteJobView>,
    pub after: Seq<EventView>,
    pub running: bool,
}

impl View for WriterTurn {
    type V = WriterTurnView;

    open spec fn view(&self) -> WriterTurnView {
        WriterTurnView {
            before: self.before.deep_view(),
            write: self.write.deep_view(),
            after: self.after.deep_view(),
            running: self.running,
        }
    }
}

/// The file service.
pub struct FileWriter {
    base_path: String,
}

impl FileWriter {
    /// The directory below which every file is written.
    pub open spec fn default_base() -> Seq<char> {
        "data"@
    }

    /// `path` resolved against the directory `base`.
    pub open spec fn resolved(base: Seq<char>, path: Seq<char>) -> Seq<char> {
        base + "/"@ + path
    }

    /// The write that `request` asks for: markdown goes out as the UTF-8
    /// encoding of its text, an image as its bytes.
    pub open spec fn job_for(base: Seq<char>, request: FileRequestView) -> WriteJobView {
        match request {
            FileRequestView::Markdown { path, data } => WriteJobView {
                path: Self::resolved(base, path),
                data: encode_utf8(data),
            },
            FileRequestView::Image { path, data } => WriteJobView {
                path: Self::resolved(base, path),
                data,
            },
        }
    }

    /// The service's answer to `received`: a file request is bracketed by an
    /// increment before the write and a decrement after it, a shutdown or a
    /// closed bus ends the service, and anything else, a lag fault included,
    /// is passed over.
    pub open spec fn turn_for(base: Seq<char>, received: ReceivedView) -> WriterTurnView {
        match received {
            ReceivedView::Event(EventView::FileRequest(request)) => WriterTurnView {
                before: seq![
                    EventView::UpdateState(StateUpdate::FileWriter(ActiveCount::Increment)),
                ],
                write: Some(Self::job_for(base, request)),
                after: seq![
                    EventView::UpdateState(StateUpdate::FileWriter(ActiveCount::Decrement)),
                ],
                running: true,
            },
            ReceivedView::Event(EventView::Shutdown) | ReceivedView::Closed => WriterTurnView {
                before: Seq::empty(),
                write: None,
                after: Seq::empty(),
                running: false,
            },
            _ => WriterTurnView {
                before: Seq::empty(),
                write: None,
                after: Seq::empty(),
                running: true,
            },
        }
    }

    /// The base directory of this service.
    pub closed spec fn base(&self) -> Seq<char> {
        self.base_path@
    }

    /// Every unit of work is closed: a turn that asks for a write publishes
    /// the increment before it and the decrement after it, and a turn that
    /// asks for none publishes nothing.
    pub proof fn lemma_unit_is_bracketed(base: Seq<char>, received: ReceivedView)
        ensures
            Self::turn_for(base, received).write is Some ==> {
                &&& Self::turn_for(base, received).before == seq![
                    EventView::UpdateState(StateUpdate::FileWriter(ActiveCount::Increment)),
                ]
                &&& Self::turn_for(base, received).after == seq![
                    EventView::UpdateState(StateUpdate::FileWriter(ActiveCount::Decrement)),
                ]
            },
            Self::turn_for(base, received).write is None ==> {
                &&& Self::turn_for(base, received).before == Seq::<EventView>::empty()
                &&& Self::turn_for(base, received).after == Seq::<EventView>::empty()
            },
    {
    }

    /// A file service that writes below `data`.
    pub fn new() -> (writer: Self)
        ensures
            writer.base() == Self::default_base(),
    {
        FileWriter { base_path: String::from_str("data") }
    }

    /// The directory below which this service writes.
    pub fn base_path(&self) -> (base: &str)
        ensures
            base@ == self.base(),
    {
        self.base_path.as_str()
    }

    /// `path` resolved against the base directory.
    fn resolve(&self, path: &str) -> (full: String)
        ensures
            full@ == Self::resolved(self.base(), path@),
    {
        let mut full = self.base_path.clone();
        full.append("/");
        full.append(path);
        full
    }

    /// Answers one received item.
    pub fn run(&self, received: Received) -> (turn: WriterTurn)
        ensures
            turn@ == Self::turn_for(self.base(), received@),
    {
        match received {
            Received::Event(EventType::FileRequest(request)) => {
                let job = match request {
                    FileRequest::Markdown { path, data } => WriteJob {
                        path: self.resolve(path.as_str()),
                        data: data.as_str().as_bytes_vec(),
                    },
                    FileRequest::Image { path, data } => WriteJob {
                        path: self.resolve(path.as_str()),
                        data,
                    },
                };
                let mut before: Vec<EventType> = Vec::new();
                before.push(EventType::UpdateState(StateUpdate::FileWriter(ActiveCount::Increment)));
                let mut after: Vec<EventType> = Vec::new();
                after.push(EventType::UpdateState(StateUpdate::FileWriter(ActiveCount::Decrement)));
                assert(before.deep_view() =~= seq![
                    EventView::UpdateState(StateUpdate::FileWriter(ActiveCount::Increment)),
                ]);
                assert(after.deep_view() =~= seq![
                    EventView::UpdateState(StateUpdate::FileWriter(ActiveCount::Decrement)),
                ]);
                WriterTurn { before, write: Some(job), after, running: true }
            },
            Received::Event(EventType::Shutdown) | Received::Closed => {
                let before: Vec<EventType> = Vec::new();
                let after: Vec<EventType> = Vec::new();
                assert(after.deep_view() =~= Seq::<EventView>::empty());
                WriterTurn { before, write: None, after, running: false }
            },
            _ => {
                let before: Vec<EventType> = Vec::new();
                let after: Vec<EventType> = Vec::new();
                assert(after.deep_view() =~= Seq::<EventView>::empty());
                WriterTurn { before, write: None, after, running: true }
            },
        }
    }
}

} // verus!
