//! Requests to show a snackbar (a transient message), sent as a window event whose
//! detail holds the fields separated by NUL characters.
use vstd::prelude::*;
use crate::text::{push_str, string_push};
use crate::uri::join;

verus! {

/// The name of the window event that shows a snackbar.
pub const SHOW_SNACKBAR_EVENT: &'static str = "showSnackbar";

/// The name of the window event sent when the user confirms a snackbar's action.
pub const SNACKBAR_CONFIRMED_EVENT: &'static str = "snackbarConfirmed";

/// The event detail of a message snackbar: `message NUL severity`.
pub fn show_snackbar(message: &str, severity: &str) -> (detail: String)
    ensures
        detail@ == join(seq![message@, severity@], seq!['\0']),
{
    let mut detail = String::new();
    push_str(&mut detail, message);
    string_push(&mut detail, '\0');
    push_str(&mut detail, severity);
    proof {
        let sep = seq!['\0'];
        let parts = seq![message@, severity@];
        assert(parts.drop_last() =~= seq![message@]);
        assert(join(seq![message@], sep) == message@);
        assert(join(parts, sep) == join(seq![message@], sep) + sep + severity@);
        assert(detail@ =~= join(parts, sep));
    }
    detail
}

/// The event detail of a confirmation snackbar: its five fields joined by NUL.
pub fn show_confirm_snackbar(
    message: &str,
    severity: &str,
    confirm_label: &str,
    cancel_label: &str,
    action_id: &str,
) -> (detail: String)
    ensures
        detail@ == join(
            seq![message@, severity@, confirm_label@, cancel_label@, action_id@],
            seq!['\0'],
        ),
{
    let mut detail = String::new();
    push_str(&mut detail, message);
    string_push(&mut detail, '\0');
    push_str(&mut detail, severity);
    string_push(&mut detail, '\0');
    push_str(&mut detail, confirm_label);
    string_push(&mut detail, '\0');
    push_str(&mut detail, cancel_label);
    string_push(&mut detail, '\0');
    push_str(&mut detail, action_id);
    proof {
        let p5 = seq![message@, severity@, confirm_label@, cancel_label@, action_id@];
        let p4 = seq![message@, severity@, confirm_label@, cancel_label@];
        let p3 = seq![message@, severity@, confirm_label@];
        let p2 = seq![message@, severity@];
        let p1 = seq![message@];
        assert(p5.drop_last() =~= p4);
        assert(p4.drop_last() =~= p3);
        assert(p3.drop_last() =~= p2);
        assert(p2.drop_last() =~= p1);
        let sep = seq!['\0'];
        assert(join(p1, sep) == message@);
        assert(join(p2, sep) == join(p1, sep) + sep + severity@);
        assert(join(p3, sep) == join(p2, sep) + sep + confirm_label@);
        assert(join(p4, sep) == join(p3, sep) + sep + cancel_label@);
        assert(join(p5, sep) == join(p4, sep) + sep + action_id@);
        assert(detail@ =~= join(p5, sep));
    }
    detail
}

} // verus!
