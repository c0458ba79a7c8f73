//! What a session tells its clients.

use crate::operation::{OTOperation, OTOperationView};
use crate::project::{ProjectView, VideoProject};
use vstd::prelude::*;

verus! {

/// A message from the session to a client.
#[derive(Debug, PartialEq, Eq)]
pub enum ServerMessage {
    /// An edit that the session has committed.
    ClientOperation(OTOperation),
    /// A client has joined.
    NewClient { client_id: String, name: String },
    /// A client has gone.
    ClientDisconnected(String),
    /// The whole project as it stands.
    ProjectUpdate(VideoProject),
    ChatMessage { client_id: String, message: String },
    /// A failure, told to the client that caused it.
    Error { client_id: String, message: String },
    /// A probe that carries the sender's clock, in milliseconds.
    Ping(u64),
    /// The answer to a probe: the milliseconds that went by since it was sent.
    Pong(u64),
}

/// A [`ServerMessage`] as mathematical values.
pub enum ServerMessageView {
    ClientOperation(OTOperationView),
    NewClient { client_id: Seq<char>, name: Seq<char> },
    ClientDisconnected(Seq<char>),
    ProjectUpdate(ProjectView),
    ChatMessage { client_id: Seq<char>, message: Seq<char> },
    Error { client_id: Seq<char>, message: Seq<char> },
    Ping(u64),
    Pong(u64),
}

impl View for ServerMessage {
    type V = ServerMessageView;

    open spec fn view(&self) -> ServerMessageView {
        match *self {
            ServerMessage::ClientOperation(op) => ServerMessageView::ClientOperation(op@),
            ServerMessage::NewClient { client_id, name } => ServerMessageView::NewClient {
                client_id: client_id@,
                name: name@,
            },
            ServerMessage::ClientDisconnected(client_id) => ServerMessageView::ClientDisconnected(
                client_id@,
            ),
            ServerMessage::ProjectUpdate(project) => ServerMessageView::ProjectUpdate(project@),
            ServerMessage::ChatMessage { client_id, message } => ServerMessageView::ChatMessage {
                client_id: client_id@,
                message: message@,
            },
            ServerMessage::Error { client_id, message } => ServerMessageView::Error {
                client_id: client_id@,
                message: message@,
            },
            ServerMessage::Ping(sent) => ServerMessageView::Ping(sent),
            ServerMessage::Pong(elapsed) => ServerMessageView::Pong(elapsed),
        }
    }
}

impl Clone for ServerMessage {
    fn clone(&self) -> (r: Self)
        ensures
            r@ == self@,
    {
        match self {
            ServerMessage::ClientOperation(op) => ServerMessage::ClientOperation(op.clone()),
            ServerMessage::NewClient { client_id, name } => ServerMessage::NewClient {
                client_id: client_id.clone(),
                name: name.clone(),
            },
            ServerMessage::ClientDisconnected(client_id) => ServerMessage::ClientDisconnected(
                client_id.clone(),
            ),
            ServerMessage::ProjectUpdate(project) => ServerMessage::ProjectUpdate(project.clone()),
            ServerMessage::ChatMessage { client_id, message } => ServerMessage::ChatMessage {
                client_id: client_id.clone(),
                message: message.clone(),
            },
            ServerMessage::Error { client_id, message } => ServerMessage::Error {
                client_id: client_id.clone(),
                message: message.clone(),
            },
            ServerMessage::Ping(sent) => ServerMessage::Ping(*sent),
            ServerMessage::Pong(elapsed) => ServerMessage::Pong(*elapsed),
        }
    }
}

/// A message together with the client that it is meant for.
#[derive(Debug, PartialEq, Eq)]
pub struct Outbound {
    pub recipient: String,
    pub message: ServerMessage,
}

/// An [`Outbound`] as mathematical values.
pub struct OutboundView {
    pub recipient: Seq<char>,
    pub message: ServerMessageView,
}

impl View for Outbound {
    type V = OutboundView;

    open spec fn view(&self) -> OutboundView {
        OutboundView { recipient: self.recipient@, message: self.message@ }
    }
}

/// The views of a run of addressed messages, in order.
pub open spec fn outbound_views(messages: Seq<Outbound>) -> Seq<OutboundView> {
    messages.map_values(|m: Outbound| m@)
}

/// One copy of `message` for each of `clients`, in their order.
pub open spec fn to_each(clients: Seq<Seq<char>>, message: ServerMessageView) -> Seq<
    OutboundView,
> {
    clients.map_values(|c: Seq<char>| OutboundView { recipient: c, message })
}

} // verus!
