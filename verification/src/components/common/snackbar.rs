//! Reading a snackbar request back from its event detail, and how each severity is shown.
use vstd::prelude::*;
use crate::split::{lemma_split_nonempty, law_split_undoes_join, piece_views, separator, split_by, split_chars, Separator};
use crate::text::{from_chars, owned, str_eq, to_chars};
use crate::uri::join;

verus! {

/// A snackbar request, as the global snackbar shows it.
#[derive(Debug)]
pub struct SnackbarMessage {
    pub message: String,
    pub severity: String,
    pub confirm_label: String,
    pub cancel_label: String,
    pub action_id: String,
}

/// The pieces of a detail text, split at NUL characters.
pub open spec fn split_nul(s: Seq<char>) -> Seq<Seq<char>> {
    split_by(s, separator(Separator::Char('\0')))
}

/// The piece `i`, or `default` when there are fewer pieces.
pub open spec fn piece_or(parts: Seq<Seq<char>>, i: int, default: Seq<char>) -> Seq<char> {
    if i < parts.len() {
        parts[i]
    } else {
        default
    }
}

/// The fields read from a detail text: message, severity (default `success`),
/// confirm label, cancel label (default `Cancelar`) and action id.
pub open spec fn spec_parse_snackbar(detail: Seq<char>) -> (Seq<char>, Seq<char>, Seq<char>, Seq<char>, Seq<char>) {
    let parts = split_nul(detail);
    (
        piece_or(parts, 0, Seq::empty()),
        piece_or(parts, 1, "success"@),
        piece_or(parts, 2, Seq::empty()),
        piece_or(parts, 3, "Cancelar"@),
        piece_or(parts, 4, Seq::empty()),
    )
}

pub open spec fn message_fields(m: SnackbarMessage) -> (Seq<char>, Seq<char>, Seq<char>, Seq<char>, Seq<char>) {
    (m.message@, m.severity@, m.confirm_label@, m.cancel_label@, m.action_id@)
}

fn piece(parts: &Vec<Vec<char>>, i: usize, default: &str) -> (r: String)
    ensures
        r@ == piece_or(piece_views(parts@), i as int, default@),
{
    if i < parts.len() {
        from_chars(&parts[i])
    } else {
        owned(default)
    }
}

/// Reads a snackbar request from the detail of its event (see `spec_parse_snackbar`).
pub fn parse_snackbar_detail(detail: &str) -> (r: SnackbarMessage)
    ensures
        message_fields(r) == spec_parse_snackbar(detail@),
{
    let v = to_chars(detail);
    let parts = split_chars(&v, Separator::Char('\0'));
    proof {
        lemma_split_nonempty(v@, separator(Separator::Char('\0')));
    }
    let r = SnackbarMessage {
        message: piece(&parts, 0, ""),
        severity: piece(&parts, 1, "success"),
        confirm_label: piece(&parts, 2, ""),
        cancel_label: piece(&parts, 3, "Cancelar"),
        action_id: piece(&parts, 4, ""),
    };
    proof {
        reveal_strlit("");
        assert(""@ =~= Seq::<char>::empty());
    }
    r
}

/// No NUL character in `s`.
pub open spec fn no_nul(s: Seq<char>) -> bool {
    forall|i: int| 0 <= i < s.len() ==> s[i] != '\0'
}

/// A message snackbar is read back with the message and severity it was sent with,
/// no confirm label, the default cancel label and no action, provided neither text
/// holds a NUL character.
pub proof fn law_snackbar_round_trip(message: Seq<char>, severity: Seq<char>)
    requires
        no_nul(message),
        no_nul(severity),
    ensures
        spec_parse_snackbar(join(seq![message, severity], seq!['\0'])) == (
            message,
            severity,
            Seq::<char>::empty(),
            "Cancelar"@,
            Seq::<char>::empty(),
        ),
{
    let parts = seq![message, severity];
    assert forall|k: int, i: int| 0 <= k < parts.len() && 0 <= i < parts[k].len() implies !separator(
        Separator::Char('\0'),
    )(#[trigger] parts[k][i]) by {
        if k == 0 {
            assert(parts[k][i] == message[i]);
        } else {
            assert(parts[k][i] == severity[i]);
        }
    }
    law_split_undoes_join(parts, '\0', separator(Separator::Char('\0')));
}

/// A confirmation snackbar is read back with the five fields it was sent with,
/// provided none holds a NUL character.
pub proof fn law_confirm_snackbar_round_trip(
    message: Seq<char>,
    severity: Seq<char>,
    confirm_label: Seq<char>,
    cancel_label: Seq<char>,
    action_id: Seq<char>,
)
    requires
        no_nul(message),
        no_nul(severity),
        no_nul(confirm_label),
        no_nul(cancel_label),
        no_nul(action_id),
    ensures
        spec_parse_snackbar(
            join(seq![message, severity, confirm_label, cancel_label, action_id], seq!['\0']),
        ) == (message, severity, confirm_label, cancel_label, action_id),
{
    let parts = seq![message, severity, confirm_label, cancel_label, action_id];
    assert forall|k: int, i: int| 0 <= k < parts.len() && 0 <= i < parts[k].len() implies !separator(
        Separator::Char('\0'),
    )(#[trigger] parts[k][i]) by {
        if k == 0 {
            assert(parts[k][i] == message[i]);
        } else if k == 1 {
            assert(parts[k][i] == severity[i]);
        } else if k == 2 {
            assert(parts[k][i] == confirm_label[i]);
        } else if k == 3 {
            assert(parts[k][i] == cancel_label[i]);
        } else {
            assert(parts[k][i] == action_id[i]);
        }
    }
    law_split_undoes_join(parts, '\0', separator(Separator::Char('\0')));
}

/// The title shown for a severity.
pub open spec fn severity_title_of(severity: Seq<char>) -> Seq<char> {
    if severity == "error"@ {
        "Erro"@
    } else if severity == "warning"@ {
        "Atenção"@
    } else if severity == "info"@ {
        "Info"@
    } else {
        "Sucesso"@
    }
}

/// The classes of the snackbar's box for a severity.
pub open spec fn severity_class_of(severity: Seq<char>) -> Seq<char> {
    if severity == "error"@ {
        "bg-red-50 border-red-200 text-red-900"@
    } else if severity == "warning"@ {
        "bg-amber-50 border-amber-200 text-amber-900"@
    } else if severity == "info"@ {
        "bg-sky-50 border-sky-200 text-sky-900"@
    } else {
        "bg-emerald-50 border-emerald-200 text-emerald-900"@
    }
}

/// The title shown for `severity`; unknown severities show as a success.
pub fn severity_title(severity: &str) -> (r: &'static str)
    ensures
        r@ == severity_title_of(severity@),
{
    if str_eq(severity, "error") {
        "Erro"
    } else if str_eq(severity, "warning") {
        "Atenção"
    } else if str_eq(severity, "info") {
        "Info"
    } else {
        "Sucesso"
    }
}

/// The classes of the snackbar's box for `severity`.
pub fn severity_class(severity: &str) -> (r: &'static str)
    ensures
        r@ == severity_class_of(severity@),
{
    if str_eq(severity, "error") {
        "bg-red-50 border-red-200 text-red-900"
    } else if str_eq(severity, "warning") {
        "bg-amber-50 border-amber-200 text-amber-900"
    } else if str_eq(severity, "info") {
        "bg-sky-50 border-sky-200 text-sky-900"
    } else {
        "bg-emerald-50 border-emerald-200 text-emerald-900"
    }
}

/// How long a snackbar without an action stays open, in milliseconds.
pub const SNACKBAR_AUTO_CLOSE_MS: u32 = 4000;

/// The global snackbar: whether it is open, and the request it shows.
#[derive(Debug)]
pub struct SnackbarState {
    pub open: bool,
    pub message: SnackbarMessage,
}

/// What happens to the global snackbar.
#[derive(Debug)]
pub enum SnackbarEvent {
    /// A `showSnackbar` event with this detail arrived.
    Show(String),
    /// The confirm button was pressed.
    Confirm,
    /// The cancel button was pressed.
    Cancel,
    /// The auto-close timer ran out.
    TimerElapsed,
}

/// What the page does after a snackbar step.
#[derive(Debug)]
pub enum SnackbarAction {
    Nothing,
    /// Start the auto-close timer with this many milliseconds.
    StartTimer(u32),
    /// Dispatch `snackbarConfirmed` with this action id.
    DispatchConfirmed(String),
}

/// The closed snackbar shown before any request: severity `success`, no texts.
pub fn snackbar_initial() -> (r: SnackbarState)
    ensures
        !r.open,
        message_fields(r.message) == (Seq::<char>::empty(), "success"@, Seq::<char>::empty(), Seq::<char>::empty(), Seq::<char>::empty()),
{
    proof {
        reveal_strlit("");
    }
    let r = SnackbarState {
        open: false,
        message: SnackbarMessage {
            message: owned(""),
            severity: owned("success"),
            confirm_label: owned(""),
            cancel_label: owned(""),
            action_id: owned(""),
        },
    };
    assert(""@ =~= Seq::<char>::empty());
    r
}

/// The confirm and cancel buttons show exactly when the request has an action id.
pub fn shows_actions(state: &SnackbarState) -> (r: bool)
    ensures
        r == (state.message.action_id@.len() > 0),
{
    !state.message.action_id.as_str().is_empty()
}

/// One step of the global snackbar:
/// - a request opens it with the fields read from its detail and, without an action
///   id, starts the auto-close timer;
/// - confirming closes it and dispatches `snackbarConfirmed` with the action id when
///   there is one;
/// - cancelling or the timer running out closes it.
pub fn snackbar_step(state: SnackbarState, event: SnackbarEvent) -> (r: (SnackbarState, SnackbarAction))
    ensures
        match event {
            SnackbarEvent::Show(detail) => {
                &&& r.0.open
                &&& message_fields(r.0.message) == spec_parse_snackbar(detail@)
                &&& if spec_parse_snackbar(detail@).4.len() == 0 {
                    r.1 matches SnackbarAction::StartTimer(ms) && ms == SNACKBAR_AUTO_CLOSE_MS
                } else {
                    r.1 is Nothing
                }
            },
            SnackbarEvent::Confirm => {
                &&& !r.0.open
                &&& message_fields(r.0.message) == message_fields(state.message)
                &&& if state.message.action_id@.len() == 0 {
                    r.1 is Nothing
                } else {
                    r.1 matches SnackbarAction::DispatchConfirmed(id) && id@ == state.message.action_id@
                }
            },
            _ => {
                &&& !r.0.open
                &&& message_fields(r.0.message) == message_fields(state.message)
                &&& r.1 is Nothing
            },
        },
{
    match event {
        SnackbarEvent::Show(detail) => {
            let message = parse_snackbar_detail(detail.as_str());
            let timer = message.action_id.as_str().is_empty();
            let next = SnackbarState { open: true, message };
            if timer {
                (next, SnackbarAction::StartTimer(SNACKBAR_AUTO_CLOSE_MS))
            } else {
                (next, SnackbarAction::Nothing)
            }
        },
        SnackbarEvent::Confirm => {
            let id = owned(state.message.action_id.as_str());
            let empty = id.as_str().is_empty();
            let next = SnackbarState { open: false, message: state.message };
            if empty {
                (next, SnackbarAction::Nothing)
            } else {
                (next, SnackbarAction::DispatchConfirmed(id))
            }
        },
        _ => (SnackbarState { open: false, message: state.message }, SnackbarAction::Nothing),
    }
}

} // verus!
