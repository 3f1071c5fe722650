use swayipc::Error as IpcError;
use vstd::prelude::*;
use vstd::string::*;

verus! {

/// The error type of the IPC client, carried through unopened.
#[verifier::external_type_specification]
#[verifier::external_body]
pub struct ExIpcError(IpcError);

/// What can go wrong while arranging outputs.
#[derive(Debug)]
pub enum Error {
    /// A failure reported by the compositor's control channel.
    Ipc(IpcError),
    /// A fixed domain condition, such as an output without a current mode.
    Plain(&'static str),
}

impl Error {
    /// The text shown for this error: the control channel's own description
    /// of an IPC failure, or the reason after `Error: ` for a domain one.
    pub fn message(&self) -> (r: String)
        ensures
            self is Ipc ==> to_string_from_display_ensures::<IpcError>(&self->Ipc_0, r),
            self is Plain ==> r@ == "Error: "@ + self->Plain_0@,
    {
        match self {
            Error::Ipc(value) => value.to_string(),
            Error::Plain(reason) => {
                let mut text = String::new();
                text.append("Error: ");
                text.append(reason);
                text
            },
        }
    }
}

impl From<IpcError> for Error {
    fn from(value: IpcError) -> (r: Error)
        ensures
            r == Error::Ipc(value),
    {
        Error::Ipc(value)
    }
}

impl vstd::std_specs::convert::FromSpecImpl<IpcError> for Error {
    open spec fn obeys_from_spec() -> bool {
        true
    }

    open spec fn from_spec(v: IpcError) -> Error {
        Error::Ipc(v)
    }
}

} // verus!
