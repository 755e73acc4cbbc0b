//! The typed model of Debug Adapter Protocol messages.
//!
//! A protocol message is a discriminated union over events, requests and
//! responses, each carrying an integer `seq` unique within its direction.
//! Only the fields the session logic reads are modelled; opaque JSON
//! payloads (launch arguments, restart data) are carried as raw text.

use vstd::prelude::*;

verus! {

use vstd::string::StringExecFns;

/// Base construct for messages to or from the debug adapter.
#[derive(Clone, Debug, PartialEq, Eq)]
pub enum AdapterMessage {
    Event(EventPayload),
    Request(RequestPayload),
    Response(ResponsePayload),
}

impl AdapterMessage {
    /// The sequence number of the message, whichever direction it travels.
    pub open spec fn spec_seq(self) -> u32 {
        match self {
            AdapterMessage::Event(p) => p.seq,
            AdapterMessage::Request(p) => p.seq,
            AdapterMessage::Response(p) => p.seq,
        }
    }

    /// Returns the sequence number of the message.
    pub fn seq(&self) -> (r: u32)
        ensures
            r == self.spec_seq(),
    {
        match self {
            AdapterMessage::Event(p) => p.seq,
            AdapterMessage::Request(p) => p.seq,
            AdapterMessage::Response(p) => p.seq,
        }
    }
}

// EVENTS

/// An event together with its sequence number.
#[derive(Clone, Debug, PartialEq, Eq)]
pub struct EventPayload {
    pub seq: u32,
    pub event: Event,
}

/// A debug-adapter initiated event.
#[derive(Clone, Debug, PartialEq, Eq)]
pub enum Event {
    /// Execution of the debuggee has continued.
    Continued(ContinuedBody),
    /// The debuggee has exited.
    Exited(ExitedBody),
    /// The adapter is ready to accept configuration requests.
    Initialized,
    /// Information about a module has changed.
    Module(ModuleBody),
    /// The debuggee has produced some output.
    Output(OutputBody),
    /// The debugger has begun debugging a new process.
    Process(ProcessBody),
    /// Execution of the debuggee has stopped.
    Stopped(StoppedBody),
    /// A thread has started or exited.
    Thread(ThreadBody),
    /// The debug session has ended.
    Terminated,
    /// Information about a breakpoint has changed.
    Breakpoint,
    /// The adapter announced new capabilities mid-session.
    Capabilities,
    /// Previously fetched data is no longer valid.
    Invalidated,
}

#[derive(Clone, Debug, PartialEq, Eq)]
pub struct ContinuedBody {
    /// The thread which was continued.
    pub thread_id: i64,
    /// True when the adapter announces that all threads have continued.
    pub all_threads_continued: bool,
}

#[derive(Clone, Debug, PartialEq, Eq)]
pub struct ExitedBody {
    /// The exit code returned from the debuggee.
    pub exit_code: i64,
}

#[derive(Clone, Debug, PartialEq, Eq)]
pub struct ModuleBody {
    /// The reason for the event.
    pub reason: ModuleReason,
    /// The new, changed, or removed module.
    pub module: Module,
}

#[derive(Clone, Copy, Debug, PartialEq, Eq)]
pub enum ModuleReason {
    New,
    Changed,
    Removed,
}

#[derive(Clone, Debug, PartialEq, Eq)]
pub struct OutputBody {
    /// The output category; `console` is assumed when absent.
    pub category: Option<OutputCategory>,
    /// The output to report.
    pub output: String,
    /// Grouping of related output messages.
    pub group: Option<OutputGroup>,
    /// A non-zero reference to structured output contents.
    pub variables_reference: Option<i64>,
    /// The source location where the output was produced.
    pub source: Option<Source>,
    /// The line where the output was produced.
    pub line: Option<i64>,
    /// The column where the output was produced.
    pub column: Option<i64>,
}

#[derive(Clone, Copy, Debug, PartialEq, Eq)]
pub enum OutputCategory {
    Console,
    Important,
    Stderr,
    Stdout,
    Telemetry,
}

#[derive(Clone, Copy, Debug, PartialEq, Eq)]
pub enum OutputGroup {
    Start,
    StartCollapsed,
    End,
}

#[derive(Clone, Debug, PartialEq, Eq)]
pub struct ProcessBody {
    /// The logical name of the process.
    pub name: String,
    /// The system process id of the debugged process.
    pub system_process_id: Option<i64>,
    /// True when the process runs beside the debug adapter.
    pub is_local_process: bool,
    /// How the debug engine started debugging the process.
    pub start_method: Option<ProcessStartMethod>,
    /// The size of a pointer for the process, in bits.
    pub pointer_size: Option<i64>,
}

#[derive(Clone, Copy, Debug, PartialEq, Eq)]
pub enum ProcessStartMethod {
    Attach,
    AttachForSuspendedLaunch,
    Launch,
}

#[derive(Clone, Debug, PartialEq, Eq)]
pub struct StoppedBody {
    /// The reason for the stop.
    pub reason: StoppedReason,
    /// The full, human-readable reason for the stop.
    pub description: Option<String>,
    /// The thread which was stopped, when the adapter names one.
    pub thread_id: Option<i64>,
    /// Hints that the stop should not change focus.
    pub preserve_focus_hint: bool,
    /// Additional information, e.g. the exception name.
    pub text: Option<String>,
    /// True when the adapter announces that all threads have stopped.
    pub all_threads_stopped: bool,
    /// Ids of the breakpoints that triggered the stop.
    pub hit_breakpoint_ids: Option<Vec<i64>>,
}

#[derive(Clone, Debug, PartialEq, Eq)]
pub enum StoppedReason {
    Step,
    Breakpoint,
    Exception,
    Pause,
    Entry,
    Goto,
    FunctionBreakpoint,
    DataBreakpoint,
    InstructionBreakpoint,
    /// Any reason the protocol leaves open, carried verbatim.
    Other(String),
}

/// The wire label of each stop reason, as shown in the stopped set.
pub open spec fn spec_stopped_reason_label(r: StoppedReason) -> Seq<char> {
    match r {
        StoppedReason::Step => "step"@,
        StoppedReason::Breakpoint => "breakpoint"@,
        StoppedReason::Exception => "exception"@,
        StoppedReason::Pause => "pause"@,
        StoppedReason::Entry => "entry"@,
        StoppedReason::Goto => "goto"@,
        StoppedReason::FunctionBreakpoint => "function breakpoint"@,
        StoppedReason::DataBreakpoint => "data breakpoint"@,
        StoppedReason::InstructionBreakpoint => "instruction breakpoint"@,
        StoppedReason::Other(s) => s@,
    }
}

/// Renders a stop reason as its human-readable wire label.
pub fn stopped_reason_label(r: &StoppedReason) -> (s: String)
    ensures
        s@ == spec_stopped_reason_label(*r),
{
    match r {
        StoppedReason::Step => String::from_str("step"),
        StoppedReason::Breakpoint => String::from_str("breakpoint"),
        StoppedReason::Exception => String::from_str("exception"),
        StoppedReason::Pause => String::from_str("pause"),
        StoppedReason::Entry => String::from_str("entry"),
        StoppedReason::Goto => String::from_str("goto"),
        StoppedReason::FunctionBreakpoint => String::from_str("function breakpoint"),
        StoppedReason::DataBreakpoint => String::from_str("data breakpoint"),
        StoppedReason::InstructionBreakpoint => String::from_str("instruction breakpoint"),
        StoppedReason::Other(s) => s.clone(),
    }
}

#[derive(Clone, Debug, PartialEq, Eq)]
pub struct ThreadBody {
    /// The reason for the event.
    pub reason: ThreadReason,
    /// The identifier of the thread.
    pub thread_id: i64,
}

#[derive(Clone, Copy, Debug, PartialEq, Eq)]
pub enum ThreadReason {
    Started,
    Exited,
}

// REQUESTS

/// A request together with its sequence number.
#[derive(Clone, Debug, PartialEq, Eq)]
pub struct RequestPayload {
    pub seq: u32,
    pub request: Request,
}

/// A client or debug-adapter initiated request.
#[derive(Clone, Debug, PartialEq, Eq)]
pub enum Request {
    /// The client has finished configuring the adapter.
    ConfigurationDone,
    /// Resume execution of a thread.
    Continue(ContinueArgs),
    /// The first request, exchanging capabilities.
    Initialize(InitializeArgs),
    /// Start the debuggee.
    Launch(LaunchArgs),
    /// Reverse request: run a command in a terminal on the adapter's behalf.
    RunInTerminal(RunInTerminalArgs),
    /// Fetch the variable scopes of a stack frame.
    Scopes(ScopesArgs),
    /// Replace all breakpoints of one source.
    SetBreakpoints(SetBreakpointsArgs),
    /// Fetch the stack trace of a thread.
    StackTrace(StackTraceArgs),
    /// Resume a thread by one step, entering calls.
    StepIn(StepInArgs),
    /// Fetch the list of all threads.
    Threads,
    /// Fetch the children of a variables reference.
    Variables(VariablesArgs),
}

#[derive(Clone, Debug, PartialEq, Eq)]
pub struct ContinueArgs {
    /// The thread to resume.
    pub thread_id: i64,
    /// If true, only the named thread is resumed.
    pub single_thread: bool,
}

#[derive(Clone, Debug, PartialEq, Eq)]
pub struct InitializeArgs {
    /// The ID of the client using this adapter.
    pub client_id: Option<String>,
    /// The human-readable name of the client.
    pub client_name: Option<String>,
    /// The ID of the debug adapter.
    pub adapter_id: Option<String>,
    /// The ISO-639 locale of the client.
    pub locale: Option<String>,
    /// True when all line numbers are 1-based.
    pub lines_start_at_1: bool,
    /// True when all column numbers are 1-based.
    pub columns_start_at_1: bool,
    /// The format paths are specified in.
    pub path_format: Option<InitializePathFormat>,
    /// Client supports the type attribute for variables.
    pub supports_variable_type: bool,
    /// Client supports the paging of variables.
    pub supports_variable_paging: bool,
    /// Client supports the runInTerminal reverse request.
    pub supports_run_in_terminal_request: bool,
    /// Client supports memory references.
    pub supports_memory_references: bool,
    /// Client supports progress reporting.
    pub supports_progress_reporting: bool,
    /// Client supports the invalidated event.
    pub supports_invalidated_event: bool,
    /// Client supports the memory event.
    pub supports_memory_event: bool,
}

#[derive(Clone, Copy, Debug, PartialEq, Eq)]
pub enum InitializePathFormat {
    Path,
    Uri,
}

#[derive(Clone, Debug, PartialEq, Eq)]
pub struct LaunchArgs {
    /// If true, launch the program without enabling debugging.
    pub no_debug: bool,
    /// Opaque data from a previous, restarted session, as raw JSON text.
    pub restart: Option<String>,
    /// Adapter-specific launch payload, as raw JSON text.
    pub args: Option<String>,
}

#[derive(Clone, Debug, PartialEq, Eq)]
pub struct RunInTerminalArgs {
    /// What kind of terminal to launch; integrated is assumed when absent.
    pub kind: Option<RunInTerminalKind>,
    /// Title of the terminal.
    pub title: Option<String>,
    /// Working directory for the command.
    pub cwd: Option<String>,
    /// The command to run, first argument first.
    pub args: Vec<String>,
    /// Environment overrides for the command.
    pub env: Option<Vec<(String, String)>>,
}

#[derive(Clone, Copy, Debug, PartialEq, Eq)]
pub enum RunInTerminalKind {
    External,
    Integrated,
}

#[derive(Clone, Debug, PartialEq, Eq)]
pub struct ScopesArgs {
    /// Retrieve the scopes for this stack frame.
    pub frame_id: i64,
}

#[derive(Clone, Debug, PartialEq, Eq)]
pub struct SetBreakpointsArgs {
    /// The source the breakpoints belong to.
    pub source: Source,
    /// The code locations of the breakpoints.
    pub breakpoints: Vec<SourceBreakpoint>,
    /// Deprecated spelling of the code locations.
    pub lines: Option<Vec<i64>>,
    /// True when the underlying source has been modified.
    pub source_modified: bool,
}

#[derive(Clone, Debug, PartialEq, Eq)]
pub struct StackTraceArgs {
    /// Retrieve the stack trace for this thread.
    pub thread_id: i64,
    /// The index of the first frame to return.
    pub start_frame: Option<i64>,
    /// The maximum number of frames to return.
    pub levels: Option<i64>,
    /// Details on how to format the frames.
    pub format: Option<StackFrameFormat>,
}

#[derive(Clone, Debug, PartialEq, Eq)]
pub struct StepInArgs {
    /// The thread to resume for one step-into.
    pub thread_id: i64,
    /// If true, all other suspended threads are not resumed.
    pub single_thread: bool,
    /// The id of the target to step into.
    pub target_id: Option<i64>,
    /// The granularity to step by.
    pub granularity: Option<SteppingGranularity>,
}

#[derive(Clone, Debug, PartialEq, Eq)]
pub struct VariablesArgs {
    /// The reference whose children to fetch.
    pub variables_reference: i64,
    /// Restricts the fetch to indexed or named children.
    pub filter: Option<String>,
    /// The index of the first child to return.
    pub start: Option<i64>,
    /// The maximum number of children to return.
    pub count: Option<i64>,
}

// RESPONSES

/// A response together with its sequence numbers and outcome.
#[derive(Clone, Debug, PartialEq, Eq)]
pub struct ResponsePayload {
    pub seq: u32,
    /// Sequence number of the corresponding request.
    pub request_seq: u32,
    /// Outcome of the request.
    pub success: bool,
    /// The raw error in short form when `success` is false.
    pub message: Option<String>,
    /// The request's result.
    pub response: Response,
}

/// The body of a response, by the command it answers.
#[derive(Clone, Debug, PartialEq, Eq)]
pub enum Response {
    ConfigurationDone,
    Continue,
    Initialize(Capabilities),
    Launch,
    RunInTerminal(RunInTerminalResponse),
    Scopes(ScopesResponse),
    SetBreakpoints,
    StackTrace(StackTraceResponse),
    StepIn,
    Threads(ThreadsResponse),
    Variables(VariablesResponse),
}

#[derive(Clone, Debug, PartialEq, Eq)]
pub struct RunInTerminalResponse {
    /// The process id of the spawned debuggee.
    pub process_id: Option<i64>,
    /// The process id of the terminal shell; unused.
    pub shell_process_id: Option<i64>,
}

#[derive(Clone, Debug, PartialEq, Eq)]
pub struct ScopesResponse {
    /// The scopes of the stack frame.
    pub scopes: Vec<Scope>,
}

#[derive(Clone, Debug, PartialEq, Eq)]
pub struct StackTraceResponse {
    /// The frames of the stack, topmost first.
    pub stack_frames: Vec<StackFrame>,
    /// The total number of frames available.
    pub total_frames: Option<i64>,
}

#[derive(Clone, Debug, PartialEq, Eq)]
pub struct ThreadsResponse {
    /// All threads.
    pub threads: Vec<Thread>,
}

#[derive(Clone, Debug, PartialEq, Eq)]
pub struct VariablesResponse {
    /// The children of the requested reference.
    pub variables: Vec<Variable>,
}

// TYPES

/// The capabilities a debug adapter reports on `initialize`.
#[derive(Clone, Debug, PartialEq, Eq)]
pub struct Capabilities {
    pub supports_configuration_done_request: bool,
    pub supports_function_breakpoints: bool,
    pub supports_conditional_breakpoints: bool,
    pub supports_hit_conditional_breakpoints: bool,
    pub supports_evaluate_for_hovers: bool,
    pub exception_breakpoint_filters: Option<Vec<ExceptionBreakpointsFilter>>,
    pub supports_step_back: bool,
    pub supports_set_variable: bool,
    pub supports_restart_frame: bool,
    pub supports_goto_targets_request: bool,
    pub supports_step_in_targets_request: bool,
    pub supports_completions_request: bool,
    pub completion_trigger_characters: bool,
    pub supports_modules_request: bool,
    pub additional_module_columns: bool,
    pub supported_checksum_algorithms: bool,
    pub supports_restart_request: bool,
    pub supports_exception_options: bool,
    pub supports_value_formatting_options: bool,
    pub supports_exception_info_request: bool,
    pub support_terminate_debuggee: bool,
    pub support_suspend_debuggee: bool,
    pub supports_delayed_stack_trace_loading: bool,
    pub supports_loaded_sources_request: bool,
    pub supports_log_points: bool,
    pub supports_terminate_threads_request: bool,
    pub supports_set_expression: bool,
    pub supports_terminate_request: bool,
    pub supports_data_breakpoints: bool,
    pub supports_read_memory_request: bool,
    pub supports_write_memory_request: bool,
    pub supports_disassemble_request: bool,
    pub supports_cancel_request: bool,
    pub supports_breakpoint_locations_request: bool,
    pub supports_clipboard_context: bool,
    pub supports_stepping_granularity: bool,
    pub supports_instruction_breakpoints: bool,
    pub supports_exception_filter_options: bool,
    pub supports_single_thread_execution_requests: bool,
}

/// An exception filter option shown in the client's UI.
#[derive(Clone, Debug, PartialEq, Eq)]
pub struct ExceptionBreakpointsFilter {
    /// The internal ID of the filter option.
    pub filter: String,
    /// The name of the filter option, shown in the UI.
    pub label: String,
    /// Help text about the exception filter.
    pub description: Option<String>,
    /// Initial value of the filter option.
    pub default: bool,
    /// Whether a condition can be specified for the option.
    pub supports_condition: bool,
    /// Help text about the condition.
    pub condition_description: Option<String>,
}

/// The checksum of an item under a named algorithm.
#[derive(Clone, Debug, PartialEq, Eq)]
pub struct Checksum {
    /// The algorithm used to calculate the checksum.
    pub algorithm: ChecksumAlgorithm,
    /// Value of the checksum.
    pub checksum: String,
}

#[derive(Clone, Copy, Debug, PartialEq, Eq)]
pub enum ChecksumAlgorithm {
    MD5,
    SHA1,
    SHA256,
    Timestamp,
}

/// A row in the modules view.
#[derive(Clone, Debug, PartialEq, Eq)]
pub struct Module {
    /// Unique identifier for the module.
    pub id: ModuleId,
    /// A name of the module.
    pub name: String,
    /// Logical full path to the module.
    pub path: Option<String>,
    /// True if the module is optimized.
    pub is_optimized: bool,
    /// True if the module is considered user code.
    pub is_user_code: bool,
    /// Version of the module.
    pub version: Option<String>,
    /// Whether symbols were found for the module.
    pub symbol_status: Option<String>,
    /// Logical full path to the symbol file.
    pub symbol_file_path: Option<String>,
    /// When the module was created or modified.
    pub date_time_stamp: Option<String>,
    /// Address range covered by the module.
    pub address_range: Option<String>,
}

#[derive(Clone, Debug, PartialEq, Eq)]
pub enum ModuleId {
    Number(i64),
    Text(String),
}

/// A descriptor for source code, as the session model reads it.
#[derive(Clone, Debug, PartialEq, Eq)]
pub struct Source {
    /// The short name of the source.
    pub name: Option<String>,
    /// The path of the source, shown in the UI.
    pub path: Option<String>,
}

#[derive(Clone, Copy, Debug, PartialEq, Eq)]
pub enum SourcePresentationHint {
    Normal,
    Emphasize,
    Deemphasize,
}

/// A breakpoint location within one source.
#[derive(Debug, PartialEq, Eq)]
pub struct SourceBreakpoint {
    /// The source line of the breakpoint.
    pub line: i64,
    /// The source column of the breakpoint.
    pub column: Option<i64>,
    /// An expression for conditional breakpoints.
    pub condition: Option<String>,
    /// An expression controlling how many hits are ignored.
    pub hit_condition: Option<String>,
    /// When present, log the message instead of stopping.
    pub log_message: Option<String>,
}

/// One frame of a thread's call stack.
#[derive(Clone, Debug, PartialEq, Eq)]
pub struct StackFrame {
    /// An identifier for the frame, unique across all threads.
    pub id: i64,
    /// The name of the frame, typically a method name.
    pub name: String,
    /// The source of the frame.
    pub source: Option<Source>,
    /// The line within the source of the frame.
    pub line: i64,
    /// The column within the line.
    pub column: i64,
    /// How to present the frame in the UI.
    pub presentation_hint: Option<StackFramePresentationHint>,
}

/// Formatting information for a stack frame.
#[derive(Clone, Copy, Debug, PartialEq, Eq)]
pub struct StackFrameFormat {
    /// Display the value in hex.
    pub hex: bool,
    /// Display parameters for the frame.
    pub parameters: bool,
    /// Display the types of parameters.
    pub parameter_types: bool,
    /// Display the names of parameters.
    pub parameter_names: bool,
    /// Display the values of parameters.
    pub parameter_values: bool,
    /// Display the line number of the frame.
    pub line: bool,
    /// Display the module of the frame.
    pub module: bool,
    /// Include all frames, even those otherwise hidden.
    pub include_all: bool,
}

#[derive(Clone, Copy, Debug, PartialEq, Eq)]
pub enum StackFramePresentationHint {
    Normal,
    Label,
    Subtle,
}

/// A named grouping of variables under a stack frame.
#[derive(Clone, Debug, PartialEq, Eq)]
pub struct Scope {
    /// Name of the scope, e.g. `Locals`.
    pub name: String,
    /// How to present the scope in the UI.
    pub presentation_hint: Option<ScopePresentationHint>,
    /// Exchanged for the scope's variables.
    pub variables_reference: i64,
    /// True when the scope is large or expensive to retrieve.
    pub expensive: bool,
}

#[derive(Clone, Copy, Debug, PartialEq, Eq)]
pub enum ScopePresentationHint {
    Arguments,
    Locals,
    Registers,
}

/// The granularity of one step in the stepping requests.
#[derive(Clone, Copy, Debug, PartialEq, Eq)]
pub enum SteppingGranularity {
    Statement,
    Line,
    Instruction,
}

/// The granularity assumed when a stepping request names none.
pub fn stepping_granularity_default() -> (r: SteppingGranularity)
    ensures
        r == SteppingGranularity::Statement,
{
    SteppingGranularity::Statement
}

/// A thread of the debuggee.
#[derive(Clone, Debug, PartialEq, Eq)]
pub struct Thread {
    /// Unique identifier for the thread.
    pub id: i64,
    /// A name of the thread.
    pub name: String,
}

/// A named value under a scope or another variable; a non-zero
/// reference implies an expandable child collection.
#[derive(Clone, Debug, PartialEq, Eq)]
pub struct Variable {
    /// The name of the variable.
    pub name: String,
    /// The rendered value of the variable.
    pub value: String,
    /// Exchanged for the variable's children when non-zero.
    pub variables_reference: i64,
}

/// Copies an optional string, keeping its value.
fn clone_opt_string(o: &Option<String>) -> (r: Option<String>)
    ensures
        r == *o,
{
    match o {
        None => None,
        Some(s) => Some(s.clone()),
    }
}

impl Clone for SourceBreakpoint {
    /// An exact copy: the clone equals the original.
    fn clone(&self) -> (res: Self)
        ensures
            res == *self,
    {
        SourceBreakpoint {
            line: self.line,
            column: self.column,
            condition: clone_opt_string(&self.condition),
            hit_condition: clone_opt_string(&self.hit_condition),
            log_message: clone_opt_string(&self.log_message),
        }
    }
}

/// Serde treats a missing boolean field as `true` when this is its default.
pub fn default_as_true() -> (r: bool)
    ensures
        r,
{
    true
}

/// Tells serde to skip serializing a boolean field that is `false`.
pub fn is_false(boolean: &bool) -> (r: bool)
    ensures
        r == !*boolean,
{
    !*boolean
}

} // verus!
