//! The client, and how one command goes out and its answer is judged.

use crate::error::{in_context, is_marked, plain, undelivered, CauseView, IpcError};
use crate::messages::Response;
use crate::step::{message_name_of, Command, Reply};
use crate::text;
use crate::text::{begins_with, copy_or_empty, decimal, text_or_empty};
use vstd::prelude::*;
use vstd::string::*;

verus! {

/// What the process tells of itself: the variables `KICAD_API_SOCKET` and `KICAD_API_TOKEN`
/// where they are set, and the process number.
#[derive(Debug)]
pub struct Environment {
    pub api_socket: Option<String>,
    pub api_token: Option<String>,
    pub process_id: u32,
}

/// A client of KiCad's IPC interface.
#[derive(Debug)]
pub struct KiCadIpcClient {
    pub socket_path: String,
    pub kicad_token: String,
    pub client_name: String,
}

impl KiCadIpcClient {
    /// A client for a socket path. Where the path is empty, the environment's is taken.
    pub fn new(socket_path: String, environment: &Environment) -> (r: KiCadIpcClient)
        ensures
            r.socket_path@ == (if socket_path@.len() == 0 {
                text_or_empty(environment.api_socket)
            } else {
                socket_path@
            }),
            r.kicad_token@ == text_or_empty(environment.api_token),
            r.client_name@ == "konnect-"@ + decimal(environment.process_id as nat),
    {
        let effective_path = if socket_path.as_str().is_empty() {
            copy_or_empty(&environment.api_socket)
        } else {
            socket_path
        };
        let mut client_name = "konnect-".to_owned();
        client_name.append(text::write_decimal(environment.process_id as u64).as_str());
        KiCadIpcClient {
            socket_path: effective_path,
            kicad_token: copy_or_empty(&environment.api_token),
            client_name,
        }
    }

    /// A client with a token of its own.
    pub fn new_with_token(socket_path: String, token: String, environment: &Environment) -> (r:
        KiCadIpcClient)
        ensures
            r.socket_path@ == (if socket_path@.len() == 0 {
                text_or_empty(environment.api_socket)
            } else {
                socket_path@
            }),
            r.kicad_token@ == token@,
            r.client_name@ == "konnect-"@ + decimal(environment.process_id as nat),
    {
        let client = KiCadIpcClient::new(socket_path, environment);
        KiCadIpcClient {
            socket_path: client.socket_path,
            kicad_token: token,
            client_name: client.client_name,
        }
    }

    /// Whether the socket path already says how to reach it.
    pub open spec fn path_is_url(self) -> bool {
        ||| begins_with(self.socket_path@, "ipc://"@)
        ||| begins_with(self.socket_path@, "tcp://"@)
        ||| begins_with(self.socket_path@, "inproc://"@)
    }

    /// The address to dial.
    pub open spec fn url(self) -> Seq<char> {
        if self.path_is_url() {
            self.socket_path@
        } else {
            "ipc://"@ + self.socket_path@
        }
    }

    pub fn dial_url(&self) -> (r: String)
        ensures
            r@ == self.url(),
    {
        let path = self.socket_path.as_str();
        if text::starts_with(path, "ipc://") || text::starts_with(path, "tcp://")
            || text::starts_with(path, "inproc://") {
            self.socket_path.clone()
        } else {
            let mut out = "ipc://".to_owned();
            out.append(path);
            out
        }
    }
}

/// A request that is ready to go out: whom to dial, who asks, and the address of the
/// command's type.
#[derive(Debug)]
pub struct Envelope {
    pub dial_url: String,
    pub kicad_token: String,
    pub client_name: String,
    pub type_url: String,
}

/// How KiCad took a command.
#[derive(Debug)]
pub struct ApiStatus {
    pub ok: bool,
    /// The code as the protocol names it.
    pub code_name: String,
    /// The code as it shows where KiCad gives no message.
    pub code_label: String,
    pub error_message: String,
}

#[derive(Debug)]
pub struct ApiResponse {
    pub status: Option<ApiStatus>,
    pub message: Option<Response>,
}

/// What became of a request on the wire. The texts say what went wrong.
#[derive(Debug)]
pub enum Delivery {
    SocketFailed(String),
    SendTimeoutRefused(String),
    ReceiveTimeoutRefused(String),
    DialFailed(String),
    SendFailed(String),
    ReceiveFailed(String),
    Undecodable(String),
    Answered(ApiResponse),
}

/// One command on its way.
#[derive(Debug)]
pub enum Sending {
    /// Deliver this, within 5 seconds for sending and 30 for the answer.
    Deliver(Envelope),
    Finished(Reply),
}

pub open spec fn unconfigured_text() -> Seq<char> {
    "KiCAD IPC socket path not configured. To fix: (1) in KiCAD, enable Edit > Preferences > Plugins > 'Enable KiCad API' and copy the listed ipc:// address; (2) paste it into the 'IPC Socket' field of the Konnect settings dialog (Tools > External Plugins > Konnect) and save; (3) restart the AI client so the server rereads settings. Alternatively set ipc_socket_path in konnect-settings.json or launch via KiCAD (which sets KICAD_API_SOCKET). Full guide: https://github.com/mixelpixx/Konnect/blob/main/docs/TROUBLESHOOTING.md"@
}

/// What an answer with this status amounts to.
pub open spec fn status_error(status: ApiStatus) -> Seq<CauseView> {
    let message = if status.error_message@.len() == 0 {
        status.code_label@
    } else {
        status.error_message@
    };
    plain("KiCad IPC error: "@ + message + " ("@ + status.code_name@ + ")"@)
}

/// What comes of a request whose delivery went as `delivery` says.
pub open spec fn concluded(client: KiCadIpcClient, delivery: Delivery) -> Result<
    Option<Response>,
    Seq<CauseView>,
> {
    match delivery {
        Delivery::SocketFailed(why) => Err(
            in_context(plain(why@), "Failed to create NNG socket"@),
        ),
        Delivery::SendTimeoutRefused(why) => Err(
            in_context(plain(why@), "Failed to set NNG send timeout"@),
        ),
        Delivery::ReceiveTimeoutRefused(why) => Err(
            in_context(plain(why@), "Failed to set NNG receive timeout"@),
        ),
        Delivery::DialFailed(why) => Err(
            undelivered("Cannot connect to KiCAD IPC at "@ + client.url() + ": "@ + why@),
        ),
        Delivery::SendFailed(why) => Err(undelivered("NNG send failed: "@ + why@)),
        Delivery::ReceiveFailed(why) => Err(plain("NNG recv failed: "@ + why@)),
        Delivery::Undecodable(why) => Err(
            in_context(plain(why@), "Failed to decode ApiResponse"@),
        ),
        Delivery::Answered(response) => match response.status {
            None => Err(plain("KiCad IPC response is missing its status"@)),
            Some(status) => if status.ok {
                Ok(response.message)
            } else {
                Err(status_error(status))
            },
        },
    }
}

impl Reply {
    /// The reply as a result.
    pub open spec fn outcome(self) -> Result<Option<Response>, Seq<CauseView>> {
        match self {
            Reply::Failed(error) => Err(error.deep_view()),
            Reply::Empty => Ok(None),
            Reply::Payload(response) => Ok(Some(response)),
        }
    }
}

/// What is known of a command before and after its delivery: without a socket path it is
/// never delivered.
pub open spec fn sending_outcome(client: KiCadIpcClient, delivery: Option<Delivery>) -> Option<
    Result<Option<Response>, Seq<CauseView>>,
> {
    if client.socket_path@.len() == 0 {
        Some(Err(undelivered(unconfigured_text())))
    } else {
        match delivery {
            None => None,
            Some(d) => Some(concluded(client, d)),
        }
    }
}

fn two(head: &str, tail: &String) -> (r: String)
    ensures
        r@ == head@ + tail@,
{
    let mut out = head.to_owned();
    out.append(tail.as_str());
    out
}

impl KiCadIpcClient {
    /// The message address of a command.
    pub fn type_url(command: &Command) -> (r: String)
        ensures
            r@ == "type.googleapis.com/"@ + message_name_of(*command),
    {
        let mut out = "type.googleapis.com/".to_owned();
        out.append(command.message_name());
        out
    }

    fn conclude(&self, delivery: Delivery) -> (r: Reply)
        ensures
            r.outcome() == concluded(*self, delivery),
    {
        match delivery {
            Delivery::SocketFailed(why) => Reply::Failed(
                IpcError::new(why).context("Failed to create NNG socket"),
            ),
            Delivery::SendTimeoutRefused(why) => Reply::Failed(
                IpcError::new(why).context("Failed to set NNG send timeout"),
            ),
            Delivery::ReceiveTimeoutRefused(why) => Reply::Failed(
                IpcError::new(why).context("Failed to set NNG receive timeout"),
            ),
            Delivery::DialFailed(why) => {
                let mut message = "Cannot connect to KiCAD IPC at ".to_owned();
                message.append(self.dial_url().as_str());
                message.append(": ");
                message.append(why.as_str());
                Reply::Failed(IpcError::unreachable(message))
            },
            Delivery::SendFailed(why) => Reply::Failed(
                IpcError::unreachable(two("NNG send failed: ", &why)),
            ),
            Delivery::ReceiveFailed(why) => Reply::Failed(
                IpcError::new(two("NNG recv failed: ", &why)),
            ),
            Delivery::Undecodable(why) => Reply::Failed(
                IpcError::new(why).context("Failed to decode ApiResponse"),
            ),
            Delivery::Answered(response) => match response.status {
                None => Reply::Failed(IpcError::say("KiCad IPC response is missing its status")),
                Some(status) => if status.ok {
                    match response.message {
                        None => Reply::Empty,
                        Some(payload) => Reply::Payload(payload),
                    }
                } else {
                    let mut message = "KiCad IPC error: ".to_owned();
                    if status.error_message.as_str().is_empty() {
                        message.append(status.code_label.as_str());
                    } else {
                        message.append(status.error_message.as_str());
                    }
                    message.append(" (");
                    message.append(status.code_name.as_str());
                    message.append(")");
                    Reply::Failed(IpcError::new(message))
                },
            },
        }
    }

    /// Sends a command: says what to deliver while there is no `delivery` yet, and what came
    /// of it once there is one.
    pub fn send_command(&self, command: &Command, delivery: Option<Delivery>) -> (r: Sending)
        ensures
            match r {
                Sending::Deliver(envelope) => {
                    &&& sending_outcome(*self, delivery) is None
                    &&& envelope.dial_url@ == self.url()
                    &&& envelope.kicad_token@ == self.kicad_token@
                    &&& envelope.client_name@ == self.client_name@
                    &&& envelope.type_url@ == "type.googleapis.com/"@ + message_name_of(*command)
                },
                Sending::Finished(reply) => sending_outcome(*self, delivery) == Some(
                    reply.outcome(),
                ),
            },
    {
        if self.socket_path.as_str().is_empty() {
            return Sending::Finished(
                Reply::Failed(
                    IpcError::unreachable(
                        "KiCAD IPC socket path not configured. To fix: (1) in KiCAD, enable Edit > Preferences > Plugins > 'Enable KiCad API' and copy the listed ipc:// address; (2) paste it into the 'IPC Socket' field of the Konnect settings dialog (Tools > External Plugins > Konnect) and save; (3) restart the AI client so the server rereads settings. Alternatively set ipc_socket_path in konnect-settings.json or launch via KiCAD (which sets KICAD_API_SOCKET). Full guide: https://github.com/mixelpixx/Konnect/blob/main/docs/TROUBLESHOOTING.md".to_owned(),
                    ),
                ),
            );
        }
        match delivery {
            Some(d) => Sending::Finished(self.conclude(d)),
            None => Sending::Deliver(
                Envelope {
                    dial_url: self.dial_url(),
                    kicad_token: self.kicad_token.clone(),
                    client_name: self.client_name.clone(),
                    type_url: KiCadIpcClient::type_url(command),
                },
            ),
        }
    }
}

/// A command fails as unreachable exactly where its request was not delivered: there is no
/// socket path, or dialling or sending failed. An error after delivery never is of that kind.
pub proof fn unreachable_means_not_delivered(
    client: KiCadIpcClient,
    delivery: Option<Delivery>,
    error: Seq<CauseView>,
)
    requires
        sending_outcome(client, delivery) == Some(
            Err::<Option<Response>, Seq<CauseView>>(error),
        ),
    ensures
        is_marked(error) <==> (client.socket_path@.len() == 0 || delivery matches Some(
            Delivery::DialFailed(_),
        ) || delivery matches Some(Delivery::SendFailed(_))),
{
    if client.socket_path@.len() == 0 {
        assert(error[1] == CauseView::Unreachable);
    } else {
        match delivery.unwrap() {
            Delivery::DialFailed(_) => {
                assert(error[1] == CauseView::Unreachable);
            },
            Delivery::SendFailed(_) => {
                assert(error[1] == CauseView::Unreachable);
            },
            _ => {
                assert(forall|i: int| 0 <= i < error.len() ==> error[i] is Text);
            },
        }
    }
}

/// A command succeeds only on an answer whose status says so.
pub proof fn success_needs_an_ok_status(client: KiCadIpcClient, delivery: Option<Delivery>)
    requires
        sending_outcome(client, delivery) matches Some(Ok(_)),
    ensures
        delivery matches Some(Delivery::Answered(response)) && response.status matches Some(status)
            && status.ok,
{
}

} // verus!
