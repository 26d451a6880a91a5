//! The messages of the signalling connection, and what a client makes of
//! each message from the server while it runs one operation.
//!
//! Payloads are carried as the documents they are on the wire.

use vstd::prelude::*;

verus! {

/// What a client asks the server to execute.
#[derive(Debug)]
pub struct ClientPayload {
    pub query: String,
    pub variables: Option<String>,
    pub operation_name: Option<String>,
}

/// A message from the client.
#[derive(Debug)]
#[allow(inconsistent_fields)]
pub enum ClientMessage {
    ConnectionInit { payload: Option<String> },
    Start { id: String, payload: ClientPayload },
    Stop { id: String },
    ConnectionTerminate,
}

/// A message from the server.
#[derive(Debug)]
pub enum ServerMessage {
    /// The connection as a whole has failed.
    ConnectionError { payload: String },
    ConnectionAck,
    Data { id: String, payload: String },
    /// One operation has failed.
    Error { id: String, payload: String },
    Complete { id: String },
    ConnectionKeepAlive,
}

/// Why a frame could not be taken for a message.
#[derive(Debug)]
pub enum MessageError {
    /// The text of the frame is no message; the reason is attached.
    Decoding(String),
    /// The frame carries no text.
    InvalidMessage,
    /// The connection failed; the reason is attached.
    WebSocket(String),
}

impl ClientMessage {
    /// The type that the message goes by on the wire.
    pub fn wire_type(&self) -> (name: &'static str)
        ensures
            name@ == (match self {
                ClientMessage::ConnectionInit { .. } => "connection_init"@,
                ClientMessage::Start { .. } => "start"@,
                ClientMessage::Stop { .. } => "stop"@,
                ClientMessage::ConnectionTerminate => "connection_terminate"@,
            }),
    {
        match self {
            ClientMessage::ConnectionInit { .. } => "connection_init",
            ClientMessage::Start { .. } => "start",
            ClientMessage::Stop { .. } => "stop",
            ClientMessage::ConnectionTerminate => "connection_terminate",
        }
    }
}

impl ServerMessage {
    /// The operation that the message belongs to, as a mathematical value.
    pub open spec fn operation(&self) -> Option<Seq<char>> {
        match self {
            ServerMessage::Data { id, .. } => Some(id@),
            ServerMessage::Error { id, .. } => Some(id@),
            ServerMessage::Complete { id } => Some(id@),
            _ => None,
        }
    }

    /// The operation that the message belongs to, if it belongs to one.
    pub fn id(&self) -> (id: Option<&str>)
        ensures
            match id {
                Some(id) => self.operation() == Some(id@),
                None => self.operation() is None,
            },
    {
        match self {
            ServerMessage::Data { id, .. } => Some(id.as_str()),
            ServerMessage::Error { id, .. } => Some(id.as_str()),
            ServerMessage::Complete { id } => Some(id.as_str()),
            _ => None,
        }
    }

    /// The type that the message goes by on the wire.
    pub fn wire_type(&self) -> (name: &'static str)
        ensures
            name@ == (match self {
                ServerMessage::ConnectionError { .. } => "error"@,
                ServerMessage::ConnectionAck => "connection_ack"@,
                ServerMessage::Data { .. } => "data"@,
                ServerMessage::Error { .. } => "error"@,
                ServerMessage::Complete { .. } => "complete"@,
                ServerMessage::ConnectionKeepAlive => "ka"@,
            }),
    {
        match self {
            ServerMessage::ConnectionError { .. } => "error",
            ServerMessage::ConnectionAck => "connection_ack",
            ServerMessage::Data { .. } => "data",
            ServerMessage::Error { .. } => "error",
            ServerMessage::Complete { .. } => "complete",
            ServerMessage::ConnectionKeepAlive => "ka",
        }
    }
}

/// What a client that runs one operation does with a message from the server.
#[derive(Debug)]
pub enum Delivery {
    /// Hand the result to the caller and go on.
    Data(String),
    /// Hand the failure to the caller and go on.
    Failure(String),
    /// Hand the failure of the connection to the caller and stop.
    Fatal(String),
    /// Stop: the operation is complete.
    Complete,
    /// Go on: the message concerns another operation, or none.
    Ignore,
}

/// What a client does with a message, as a mathematical value.
pub enum Outcome {
    Data(Seq<char>),
    Failure(Seq<char>),
    Fatal(Seq<char>),
    Complete,
    Ignore,
}

impl View for Delivery {
    type V = Outcome;

    open spec fn view(&self) -> Outcome {
        match self {
            Delivery::Data(payload) => Outcome::Data(payload@),
            Delivery::Failure(payload) => Outcome::Failure(payload@),
            Delivery::Fatal(payload) => Outcome::Fatal(payload@),
            Delivery::Complete => Outcome::Complete,
            Delivery::Ignore => Outcome::Ignore,
        }
    }
}

/// What the client that runs the operation `operation` does with `message`:
/// data and failures of its own operation are handed on, its completion
/// stops it, a failure of the connection is handed on and stops it, and
/// everything else is passed over.
pub open spec fn outcome_of(operation: Seq<char>, message: ServerMessage) -> Outcome {
    match message {
        ServerMessage::Data { id, payload } => if id@ == operation {
            Outcome::Data(payload@)
        } else {
            Outcome::Ignore
        },
        ServerMessage::Complete { id } => if id@ == operation {
            Outcome::Complete
        } else {
            Outcome::Ignore
        },
        ServerMessage::ConnectionError { payload } => Outcome::Fatal(payload@),
        ServerMessage::Error { id, payload } => if id@ == operation {
            Outcome::Failure(payload@)
        } else {
            Outcome::Ignore
        },
        ServerMessage::ConnectionAck => Outcome::Ignore,
        ServerMessage::ConnectionKeepAlive => Outcome::Ignore,
    }
}

/// Decides what the client that runs the operation `operation` does with
/// `message`.
pub fn deliver(operation: &String, message: ServerMessage) -> (delivery: Delivery)
    ensures
        delivery@ == outcome_of(operation@, message),
{
    match message {
        ServerMessage::Data { id, payload } => if id == *operation {
            Delivery::Data(payload)
        } else {
            Delivery::Ignore
        },
        ServerMessage::Complete { id } => if id == *operation {
            Delivery::Complete
        } else {
            Delivery::Ignore
        },
        ServerMessage::ConnectionError { payload } => Delivery::Fatal(payload),
        ServerMessage::Error { id, payload } => if id == *operation {
            Delivery::Failure(payload)
        } else {
            Delivery::Ignore
        },
        ServerMessage::ConnectionAck => Delivery::Ignore,
        ServerMessage::ConnectionKeepAlive => Delivery::Ignore,
    }
}

} // verus!
