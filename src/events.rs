use vstd::prelude::*;
use crate::config::WorkspaceConfig;

verus! {

/// The tone of a toast shown to the user.
#[derive(Debug, Clone, Copy, PartialEq, Eq, Structural)]
pub enum ToastKind {
    Info,
    Error,
    Warning,
    Success,
}

/// A short notification shown to the user.
#[derive(Debug, Clone)]
pub struct ToastEvent {
    pub kind: ToastKind,
    pub message: String,
}

/// Asks the user interface to refresh the cached views under `query_key`.
#[derive(Debug, Clone)]
pub struct QueryClientInvalidateEvent {
    pub query_key: Option<Vec<String>>,
}

/// Announces a new workspace configuration.
#[derive(Debug, Clone)]
pub struct WorkspaceConfigUpdateEvent {
    pub new: WorkspaceConfig,
}

/// A chunk of a supervised process's output, tagged with its identifier.
#[derive(Debug, Clone)]
pub struct ProgramOutputEvent {
    pub source: u64,
    pub chunk: Vec<u8>,
}

/// Everything the core reports to the user interface.
#[derive(Debug, Clone)]
pub enum UiEvent {
    Toast(ToastEvent),
    Invalidate(QueryClientInvalidateEvent),
    WorkspaceConfigUpdate(WorkspaceConfigUpdateEvent),
    ProgramOutput(ProgramOutputEvent),
}

/// The outbound queue of notifications. Producers only append; whoever
/// delivers them takes them all at once, in the order they were produced.
pub struct EventBridge {
    pub pending: Vec<UiEvent>,
}

/// The key of the cached list of problems.
pub open spec fn problems_key() -> Seq<char> {
    "problems"@
}

/// Whether `e` asks to refresh exactly the list of problems.
pub open spec fn is_problems_invalidation(e: UiEvent) -> bool {
    e matches UiEvent::Invalidate(q) && q.query_key matches Some(keys) && keys@.len() == 1
        && keys@[0]@ == problems_key()
}

/// Whether `e` is an error toast that says `message`.
pub open spec fn is_error_toast(e: UiEvent, message: Seq<char>) -> bool {
    e matches UiEvent::Toast(t) && t.kind == ToastKind::Error && t.message@ == message
}

impl EventBridge {
    pub fn new() -> (r: EventBridge)
        ensures
            r.pending@.len() == 0,
    {
        EventBridge { pending: Vec::new() }
    }

    /// Queues one event behind those already pending.
    pub fn emit(&mut self, e: UiEvent)
        ensures
            final(self).pending@ == old(self).pending@.push(e),
    {
        self.pending.push(e);
    }

    /// Queues a toast.
    pub fn toast(&mut self, kind: ToastKind, message: String)
        ensures
            final(self).pending@ == old(self).pending@.push(
                UiEvent::Toast(ToastEvent { kind, message }),
            ),
    {
        self.emit(UiEvent::Toast(ToastEvent { kind, message }));
    }

    /// Queues a request to refresh the list of problems.
    pub fn invalidate_problems(&mut self)
        ensures
            final(self).pending@.len() == old(self).pending@.len() + 1,
            final(self).pending@.drop_last() == old(self).pending@,
            is_problems_invalidation(final(self).pending@.last()),
    {
        let mut keys: Vec<String> = Vec::new();
        keys.push(String::from_str("problems"));
        self.emit(UiEvent::Invalidate(QueryClientInvalidateEvent { query_key: Some(keys) }));
        assert(self.pending@.drop_last() == old(self).pending@);
    }

    /// Queues a chunk of output of the process `source`.
    pub fn program_output(&mut self, source: u64, chunk: Vec<u8>)
        ensures
            final(self).pending@ == old(self).pending@.push(
                UiEvent::ProgramOutput(ProgramOutputEvent { source, chunk }),
            ),
    {
        self.emit(UiEvent::ProgramOutput(ProgramOutputEvent { source, chunk }));
    }

    /// Takes every pending event, oldest first.
    pub fn drain(&mut self) -> (r: Vec<UiEvent>)
        ensures
            r@ == old(self).pending@,
            final(self).pending@.len() == 0,
    {
        let mut r: Vec<UiEvent> = Vec::new();
        std::mem::swap(&mut r, &mut self.pending);
        r
    }
}

} // verus!
