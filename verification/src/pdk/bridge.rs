//! The bridge from download-client commands to a plugin's legacy functions.

use vstd::prelude::*;
use crate::plugin::{PluginError, PluginErrorCode};
use crate::text::{chars_of, chars_eq, push_all};

verus! {

/// The JSON functions a legacy download-client plugin exports: each takes a
/// JSON request and answers JSON, or fails with a message.
pub struct LegacyDownloadClientFunctions<F> {
    pub describe: F,
    pub add: F,
    pub list_queue: F,
    pub list_history: F,
    pub list_completed: F,
    pub list_recent_completed: Option<F>,
    pub control: F,
    pub mark_imported: F,
    pub status: F,
    pub test_connection: F,
}

/// One of the legacy functions.
#[derive(Debug, Clone, Copy, PartialEq, Eq, Structural)]
pub enum LegacyEndpoint {
    Describe,
    Add,
    ListQueue,
    ListHistory,
    ListCompleted,
    ListRecentCompleted,
    Control,
    MarkImported,
    Status,
    TestConnection,
}

impl<F: Fn(String) -> Result<String, String>> LegacyDownloadClientFunctions<F> {
    /// The function behind `endpoint` (the recent-completed one only when exported).
    pub open spec fn function_for(&self, endpoint: LegacyEndpoint) -> F {
        match endpoint {
            LegacyEndpoint::Describe => self.describe,
            LegacyEndpoint::Add => self.add,
            LegacyEndpoint::ListQueue => self.list_queue,
            LegacyEndpoint::ListHistory => self.list_history,
            LegacyEndpoint::ListCompleted => self.list_completed,
            LegacyEndpoint::ListRecentCompleted => self.list_recent_completed->0,
            LegacyEndpoint::Control => self.control,
            LegacyEndpoint::MarkImported => self.mark_imported,
            LegacyEndpoint::Status => self.status,
            LegacyEndpoint::TestConnection => self.test_connection,
        }
    }

    /// Every exported function may be called with any request.
    pub open spec fn callable(&self) -> bool {
        &&& forall|s: String| call_requires(self.describe, (s,))
        &&& forall|s: String| call_requires(self.add, (s,))
        &&& forall|s: String| call_requires(self.list_queue, (s,))
        &&& forall|s: String| call_requires(self.list_history, (s,))
        &&& forall|s: String| call_requires(self.list_completed, (s,))
        &&& (self.list_recent_completed matches Some(f) ==> forall|s: String| call_requires(f, (s,)))
        &&& forall|s: String| call_requires(self.control, (s,))
        &&& forall|s: String| call_requires(self.mark_imported, (s,))
        &&& forall|s: String| call_requires(self.status, (s,))
        &&& forall|s: String| call_requires(self.test_connection, (s,))
    }
}

/// A command of the download-client protocol, with its request already
/// encoded as JSON where it has one.
#[derive(Debug)]
pub enum DownloadClientCommand {
    Add(String),
    ListQueue,
    ListHistory,
    ListCompleted,
    ListRecentCompleted(String),
    /// Look up the completed download with this client item id.
    GetCompleted(String),
    Control(String),
    MarkImported(String),
    Status,
    TestConnection,
}

/// The JSON encoding of a command without a request (`()`).
pub open spec fn unit_json() -> Seq<char> {
    "null"@
}

/// Which legacy function answers a command, and with which JSON request:
/// a command's own request where it has one, `null` otherwise. A recent
/// completed list falls back to the full completed list when the plugin does
/// not export one; an exact lookup reads the full completed list.
pub open spec fn planned_call(command: DownloadClientCommand, exports_recent: bool) -> (LegacyEndpoint, Seq<char>) {
    match command {
        DownloadClientCommand::Add(r) => (LegacyEndpoint::Add, r@),
        DownloadClientCommand::ListQueue => (LegacyEndpoint::ListQueue, unit_json()),
        DownloadClientCommand::ListHistory => (LegacyEndpoint::ListHistory, unit_json()),
        DownloadClientCommand::ListCompleted => (LegacyEndpoint::ListCompleted, unit_json()),
        DownloadClientCommand::ListRecentCompleted(r) => if exports_recent {
            (LegacyEndpoint::ListRecentCompleted, r@)
        } else {
            (LegacyEndpoint::ListCompleted, unit_json())
        },
        DownloadClientCommand::GetCompleted(_) => (LegacyEndpoint::ListCompleted, unit_json()),
        DownloadClientCommand::Control(r) => (LegacyEndpoint::Control, r@),
        DownloadClientCommand::MarkImported(r) => (LegacyEndpoint::MarkImported, r@),
        DownloadClientCommand::Status => (LegacyEndpoint::Status, unit_json()),
        DownloadClientCommand::TestConnection => (LegacyEndpoint::TestConnection, unit_json()),
    }
}

/// The error the bridge reports for a failed command: temporary, with a
/// fixed public message and `message` as its debug message.
pub open spec fn is_bridge_error(e: PluginError, message: Seq<char>) -> bool {
    &&& e.code == PluginErrorCode::Temporary
    &&& e.public_message@ == "download client command failed"@
    &&& e.debug_message matches Some(d) && d@ == message
    &&& e.retry_after_seconds is None
}

/// The error the bridge reports for a failed command.
pub fn bridge_error(message: String) -> (e: PluginError)
    ensures
        is_bridge_error(e, message@),
{
    PluginError {
        code: PluginErrorCode::Temporary,
        public_message: String::from_str("download client command failed"),
        debug_message: Some(message),
        retry_after_seconds: None,
    }
}

/// The error for a request that could not be encoded as JSON.
pub fn encode_failure(detail: &str) -> (e: PluginError)
    ensures
        is_bridge_error(e, "failed to encode command request: "@ + detail@),
{
    let mut m = String::from_str("failed to encode command request: ");
    push_all(&mut m, detail);
    bridge_error(m)
}

/// The error for a function whose answer is no valid JSON of the expected shape.
pub fn malformed_response(detail: &str) -> (e: PluginError)
    ensures
        is_bridge_error(e, "plugin returned malformed response: "@ + detail@),
{
    let mut m = String::from_str("plugin returned malformed response: ");
    push_all(&mut m, detail);
    bridge_error(m)
}

/// Calls one legacy function with a JSON request; a failure becomes a bridge error.
pub fn call<F: Fn(String) -> Result<String, String>>(function: &F, request: String) -> (r: (
    Result<String, String>,
    Result<String, PluginError>,
))
    requires
        call_requires(*function, (request,)),
    ensures
        call_ensures(*function, (request,), r.0),
        match r.0 {
            Ok(s) => r.1 == Ok::<String, PluginError>(s),
            Err(m) => r.1 matches Err(e) && is_bridge_error(e, m@),
        },
{
    let out = function(request);
    let answer = match &out {
        Ok(s) => Ok(s.clone()),
        Err(m) => Err(bridge_error(m.clone())),
    };
    (out, answer)
}

/// What the bridge answers a command with: the result kind to decode, and
/// the legacy function's JSON answer or the failure.
#[derive(Debug)]
pub struct BridgeReply {
    /// The command being answered.
    pub command: CommandKind,
    /// The JSON that the legacy function answered, or the bridge error.
    pub answer: Result<String, PluginError>,
}

/// Which command a reply answers.
#[derive(Debug, Clone, Copy, PartialEq, Eq, Structural)]
pub enum CommandKind {
    Add,
    ListQueue,
    ListHistory,
    ListCompleted,
    ListRecentCompleted,
    /// An exact lookup: the answer is the completed list, of which the caller
    /// keeps the download `find_completed` names.
    GetCompleted,
    Control,
    MarkImported,
    Status,
    TestConnection,
}

/// The kind of a command.
pub open spec fn kind_of(command: DownloadClientCommand) -> CommandKind {
    match command {
        DownloadClientCommand::Add(_) => CommandKind::Add,
        DownloadClientCommand::ListQueue => CommandKind::ListQueue,
        DownloadClientCommand::ListHistory => CommandKind::ListHistory,
        DownloadClientCommand::ListCompleted => CommandKind::ListCompleted,
        DownloadClientCommand::ListRecentCompleted(_) => CommandKind::ListRecentCompleted,
        DownloadClientCommand::GetCompleted(_) => CommandKind::GetCompleted,
        DownloadClientCommand::Control(_) => CommandKind::Control,
        DownloadClientCommand::MarkImported(_) => CommandKind::MarkImported,
        DownloadClientCommand::Status => CommandKind::Status,
        DownloadClientCommand::TestConnection => CommandKind::TestConnection,
    }
}

/// Answers one command by calling the legacy function it maps to.
pub fn bridge_download_client_command<F: Fn(String) -> Result<String, String>>(
    functions: &LegacyDownloadClientFunctions<F>,
    command: DownloadClientCommand,
) -> (reply: BridgeReply)
    requires
        functions.callable(),
    ensures
        reply.command == kind_of(command),
        ({
            let (endpoint, input) = planned_call(command, functions.list_recent_completed is Some);
            exists|request: String, out: Result<String, String>|
                request@ == input && call_ensures(functions.function_for(endpoint), (request,), out)
                    && match out {
                    Ok(s) => reply.answer == Ok::<String, PluginError>(s),
                    Err(m) => reply.answer matches Err(e) && is_bridge_error(e, m@),
                }
        }),
{
    let ghost planned = planned_call(command, functions.list_recent_completed is Some);
    let kind = match &command {
        DownloadClientCommand::Add(_) => CommandKind::Add,
        DownloadClientCommand::ListQueue => CommandKind::ListQueue,
        DownloadClientCommand::ListHistory => CommandKind::ListHistory,
        DownloadClientCommand::ListCompleted => CommandKind::ListCompleted,
        DownloadClientCommand::ListRecentCompleted(_) => CommandKind::ListRecentCompleted,
        DownloadClientCommand::GetCompleted(_) => CommandKind::GetCompleted,
        DownloadClientCommand::Control(_) => CommandKind::Control,
        DownloadClientCommand::MarkImported(_) => CommandKind::MarkImported,
        DownloadClientCommand::Status => CommandKind::Status,
        DownloadClientCommand::TestConnection => CommandKind::TestConnection,
    };
    let (endpoint, request) = match command {
        DownloadClientCommand::Add(r) => (LegacyEndpoint::Add, r),
        DownloadClientCommand::ListQueue => (LegacyEndpoint::ListQueue, String::from_str("null")),
        DownloadClientCommand::ListHistory => (LegacyEndpoint::ListHistory, String::from_str("null")),
        DownloadClientCommand::ListCompleted => (LegacyEndpoint::ListCompleted, String::from_str("null")),
        DownloadClientCommand::ListRecentCompleted(r) => {
            if functions.list_recent_completed.is_some() {
                (LegacyEndpoint::ListRecentCompleted, r)
            } else {
                (LegacyEndpoint::ListCompleted, String::from_str("null"))
            }
        },
        DownloadClientCommand::GetCompleted(_) => (LegacyEndpoint::ListCompleted, String::from_str("null")),
        DownloadClientCommand::Control(r) => (LegacyEndpoint::Control, r),
        DownloadClientCommand::MarkImported(r) => (LegacyEndpoint::MarkImported, r),
        DownloadClientCommand::Status => (LegacyEndpoint::Status, String::from_str("null")),
        DownloadClientCommand::TestConnection => (LegacyEndpoint::TestConnection, String::from_str("null")),
    };
    proof {
        assert(endpoint == planned.0 && request@ == planned.1);
    }
    let ghost req = request;
    let (out, answer) = match endpoint {
        LegacyEndpoint::Describe => call(&functions.describe, request),
        LegacyEndpoint::Add => call(&functions.add, request),
        LegacyEndpoint::ListQueue => call(&functions.list_queue, request),
        LegacyEndpoint::ListHistory => call(&functions.list_history, request),
        LegacyEndpoint::ListCompleted => call(&functions.list_completed, request),
        LegacyEndpoint::ListRecentCompleted => match &functions.list_recent_completed {
            Some(f) => call(f, request),
            None => call(&functions.list_completed, request),
        },
        LegacyEndpoint::Control => call(&functions.control, request),
        LegacyEndpoint::MarkImported => call(&functions.mark_imported, request),
        LegacyEndpoint::Status => call(&functions.status, request),
        LegacyEndpoint::TestConnection => call(&functions.test_connection, request),
    };
    proof {
        assert(call_ensures(functions.function_for(endpoint), (req,), out));
    }
    BridgeReply { command: kind, answer }
}

/// The plugin's descriptor JSON: what its `describe` function answers to an
/// empty request.
pub fn legacy_download_client_descriptor<F: Fn(String) -> Result<String, String>>(
    functions: &LegacyDownloadClientFunctions<F>,
) -> (r: Result<String, String>)
    requires
        functions.callable(),
    ensures
        exists|input: String| input@ == Seq::<char>::empty() && call_ensures(functions.describe, (input,), r),
{
    let input = String::new();
    let ghost i = input;
    let r = (functions.describe)(input);
    proof {
        assert(call_ensures(functions.describe, (i,), r));
    }
    r
}

/// A legacy plugin ready to serve commands: its functions and its descriptor JSON.
pub struct DownloadClientBridge<F> {
    pub functions: LegacyDownloadClientFunctions<F>,
    pub descriptor_json: String,
}

impl<F: Fn(String) -> Result<String, String>> DownloadClientBridge<F> {
    /// Answers one command.
    pub fn handle(&self, command: DownloadClientCommand) -> (reply: BridgeReply)
        requires
            self.functions.callable(),
        ensures
            reply.command == kind_of(command),
            ({
                let (endpoint, input) = planned_call(command, self.functions.list_recent_completed is Some);
                exists|request: String, out: Result<String, String>|
                    request@ == input && call_ensures(self.functions.function_for(endpoint), (request,), out)
                        && match out {
                        Ok(s) => reply.answer == Ok::<String, PluginError>(s),
                        Err(m) => reply.answer matches Err(e) && is_bridge_error(e, m@),
                    }
            }),
    {
        bridge_download_client_command(&self.functions, command)
    }
}

/// Whether the plugin's `describe` function answers the empty request with a
/// descriptor whenever it is called.
pub open spec fn describes_itself<F: Fn(String) -> Result<String, String>>(
    functions: LegacyDownloadClientFunctions<F>,
) -> bool {
    forall|input: String, out: Result<String, String>|
        input@ == Seq::<char>::empty() && #[trigger] call_ensures(functions.describe, (input,), out)
            ==> out is Ok
}

/// Prepares a legacy plugin to serve the command protocol when its
/// descriptor can be read: reads the descriptor once and keeps the functions
/// to answer each command with. A failing `describe` is returned.
pub fn start_download_client_bridge<F: Fn(String) -> Result<String, String>>(
    functions: LegacyDownloadClientFunctions<F>,
) -> (r: Result<DownloadClientBridge<F>, String>)
    requires
        functions.callable(),
    ensures
        exists|input: String, out: Result<String, String>|
            input@ == Seq::<char>::empty() && call_ensures(functions.describe, (input,), out) && match out {
                Ok(d) => r matches Ok(b) && b.descriptor_json == d && b.functions == functions,
                Err(m) => r == Err::<DownloadClientBridge<F>, String>(m),
            },
{
    let descriptor = legacy_download_client_descriptor(&functions);
    match descriptor {
        Ok(d) => Ok(DownloadClientBridge { functions, descriptor_json: d }),
        Err(m) => Err(m),
    }
}

/// Prepares a first-party legacy plugin to serve the command protocol: reads
/// its descriptor once and keeps its functions to answer each command with.
/// Such a plugin always describes itself.
pub fn run_download_client_bridge_with_descriptor<F: Fn(String) -> Result<String, String>>(
    functions: LegacyDownloadClientFunctions<F>,
) -> (b: DownloadClientBridge<F>)
    requires
        functions.callable(),
        describes_itself(functions),
    ensures
        b.functions == functions,
        exists|input: String|
            input@ == Seq::<char>::empty() && #[trigger] call_ensures(
                functions.describe,
                (input,),
                Ok::<String, String>(b.descriptor_json),
            ),
{
    let ghost f = functions;
    match start_download_client_bridge(functions) {
        Ok(b) => b,
        Err(m) => {
            proof {
                let (input, out) = choose|input: String, out: Result<String, String>|
                    input@ == Seq::<char>::empty() && call_ensures(f.describe, (input,), out) && match out {
                        Ok(d) => false,
                        Err(e) => e == m,
                    };
                assert(out is Ok);
            }
            vstd::pervasive::unreached()
        },
    }
}

/// The position of the first download whose client item id is `client_item_id`.
pub fn find_completed(ids: &Vec<String>, client_item_id: &str) -> (r: Option<usize>)
    ensures
        match r {
            Some(i) => i < ids@.len() && ids@[i as int]@ == client_item_id@ && forall|k: int|
                0 <= k < i ==> ids@[k]@ != client_item_id@,
            None => forall|k: int| 0 <= k < ids@.len() ==> ids@[k]@ != client_item_id@,
        },
{
    let want = chars_of(client_item_id);
    let mut i: usize = 0;
    while i < ids.len()
        invariant
            i <= ids@.len(),
            want@ == client_item_id@,
            forall|k: int| 0 <= k < i ==> ids@[k]@ != client_item_id@,
        decreases ids@.len() - i,
    {
        if chars_eq(&chars_of(ids[i].as_str()), &want) {
            return Some(i);
        }
        i = i + 1;
    }
    None
}

/// Law: an exact lookup returns nothing but the requested download.
pub proof fn exact_lookup_is_exact(ids: Seq<Seq<char>>, wanted: Seq<char>, found: Option<int>)
    requires
        match found {
            Some(i) => 0 <= i < ids.len() && ids[i] == wanted && forall|k: int| 0 <= k < i ==> ids[k] != wanted,
            None => forall|k: int| 0 <= k < ids.len() ==> ids[k] != wanted,
        },
    ensures
        found matches Some(i) ==> ids[i] == wanted,
        found is None <==> !ids.contains(wanted),
{
}

/// Law: each command reaches the legacy function of its own name, with its
/// own request, or `null` where it has none. A recent completed list reaches
/// the recent function when the plugin exports one and the full completed
/// list otherwise; an exact lookup reads the full completed list.
pub proof fn commands_reach_their_own_functions(r: String, exports_recent: bool)
    ensures
        planned_call(DownloadClientCommand::Add(r), exports_recent) == (LegacyEndpoint::Add, r@),
        planned_call(DownloadClientCommand::ListQueue, exports_recent) == (
            LegacyEndpoint::ListQueue,
            "null"@,
        ),
        planned_call(DownloadClientCommand::ListHistory, exports_recent) == (
            LegacyEndpoint::ListHistory,
            "null"@,
        ),
        planned_call(DownloadClientCommand::ListCompleted, exports_recent) == (
            LegacyEndpoint::ListCompleted,
            "null"@,
        ),
        exports_recent ==> planned_call(DownloadClientCommand::ListRecentCompleted(r), exports_recent)
            == (LegacyEndpoint::ListRecentCompleted, r@),
        !exports_recent ==> planned_call(DownloadClientCommand::ListRecentCompleted(r), exports_recent)
            == (LegacyEndpoint::ListCompleted, "null"@),
        planned_call(DownloadClientCommand::GetCompleted(r), exports_recent) == (
            LegacyEndpoint::ListCompleted,
            "null"@,
        ),
        planned_call(DownloadClientCommand::Control(r), exports_recent) == (LegacyEndpoint::Control, r@),
        planned_call(DownloadClientCommand::MarkImported(r), exports_recent) == (
            LegacyEndpoint::MarkImported,
            r@,
        ),
        planned_call(DownloadClientCommand::Status, exports_recent) == (LegacyEndpoint::Status, "null"@),
        planned_call(DownloadClientCommand::TestConnection, exports_recent) == (
            LegacyEndpoint::TestConnection,
            "null"@,
        ),
{
}

/// Law: each legacy endpoint is served by the exported function of the same name.
pub proof fn endpoints_are_served_by_their_functions<F: Fn(String) -> Result<String, String>>(
    functions: LegacyDownloadClientFunctions<F>,
)
    ensures
        functions.function_for(LegacyEndpoint::Describe) == functions.describe,
        functions.function_for(LegacyEndpoint::Add) == functions.add,
        functions.function_for(LegacyEndpoint::ListQueue) == functions.list_queue,
        functions.function_for(LegacyEndpoint::ListHistory) == functions.list_history,
        functions.function_for(LegacyEndpoint::ListCompleted) == functions.list_completed,
        functions.list_recent_completed is Some ==> functions.function_for(
            LegacyEndpoint::ListRecentCompleted,
        ) == functions.list_recent_completed->0,
        functions.function_for(LegacyEndpoint::Control) == functions.control,
        functions.function_for(LegacyEndpoint::MarkImported) == functions.mark_imported,
        functions.function_for(LegacyEndpoint::Status) == functions.status,
        functions.function_for(LegacyEndpoint::TestConnection) == functions.test_connection,
{
}

} // verus!
