use vstd::prelude::*;

verus! {

/// What part of the client an error comes from.
#[derive(Debug, Clone, Copy, PartialEq, Eq, Structural)]
pub enum Kind {
    /// The client or a request could not be built.
    Builder,
    /// Sending a request or receiving its response failed.
    Request,
    /// The response could not be decoded.
    Decode,
}

/// The error type of the client.
#[derive(Debug)]
pub struct Error {
    kind: Kind,
    message: String,
}

impl Error {
    /// Builds an error of the given kind with the given message.
    pub fn new(kind: Kind, message: &str) -> (e: Error)
        ensures
            e.kind() == kind,
            e.message_view() == message@,
    {
        Error { kind, message: message.to_owned() }
    }

    pub closed spec fn kind_spec(&self) -> Kind {
        self.kind
    }

    /// The text of the error message.
    pub closed spec fn message_view(&self) -> Seq<char> {
        self.message@
    }

    /// The kind of this error.
    #[verifier::when_used_as_spec(kind_spec)]
    pub fn kind(&self) -> (k: Kind)
        ensures
            k == self.kind_spec(),
    {
        self.kind
    }

    /// The message of this error.
    pub fn message(&self) -> (m: &str)
        ensures
            m@ == self.message_view(),
    {
        self.message.as_str()
    }
}

/// The error returned when talking to the host's HTTP interface failed at
/// the step that `step` names.
pub fn failure_point(step: &str) -> (e: Error)
    ensures
        e.kind() == Kind::Request,
        e.message_view() == step@,
{
    Error::new(Kind::Request, step)
}

/// The error returned when a client or a request could not be built.
pub fn builder(message: &str) -> (e: Error)
    ensures
        e.kind() == Kind::Builder,
        e.message_view() == message@,
{
    Error::new(Kind::Builder, message)
}

/// A plain error carrying only a message.
#[derive(Debug)]
pub struct MyError {
    message: String,
}

impl MyError {
    pub closed spec fn message_view(&self) -> Seq<char> {
        self.message@
    }

    /// Builds an error whose message is `message`.
    pub fn new(message: &str) -> (e: Self)
        ensures
            e.message_view() == message@,
    {
        Self { message: message.to_owned() }
    }

    /// The text that the error displays.
    pub fn message(&self) -> (m: String)
        ensures
            m@ == self.message_view(),
    {
        self.message.clone()
    }
}

} // verus!
