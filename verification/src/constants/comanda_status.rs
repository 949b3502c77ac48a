//! The states of a comanda (an order tab) and how each is shown.
use vstd::prelude::*;

verus! {

/// The state of a comanda; the API encodes it as `0`, `1` and `2`.
#[derive(Clone, Copy, Debug, PartialEq, Eq, Structural)]
pub enum ComandaStatus {
    Aberta,
    Fechada,
    Cancelada,
}

/// The API code of a status.
pub open spec fn status_code(s: ComandaStatus) -> i32 {
    match s {
        ComandaStatus::Aberta => 0,
        ComandaStatus::Fechada => 1,
        ComandaStatus::Cancelada => 2,
    }
}

impl ComandaStatus {
    /// The API code of this status (`status as i32`).
    pub fn as_i32(self) -> (r: i32)
        ensures
            r == status_code(self),
    {
        match self {
            ComandaStatus::Aberta => 0,
            ComandaStatus::Fechada => 1,
            ComandaStatus::Cancelada => 2,
        }
    }
}

/// How a status is shown: its label and the classes of its badge.
#[derive(Clone, Copy, Debug, PartialEq, Eq)]
pub struct StatusConfig {
    pub label: &'static str,
    pub badge_class: &'static str,
}

/// A choice offered in status filters.
#[derive(Clone, Copy, Debug, PartialEq, Eq)]
pub struct StatusOption {
    pub value: i32,
    pub label: &'static str,
}

/// The status with the API code `status`, if any.
pub open spec fn spec_status_from_i32(status: i32) -> Option<ComandaStatus> {
    if status == 0 {
        Some(ComandaStatus::Aberta)
    } else if status == 1 {
        Some(ComandaStatus::Fechada)
    } else if status == 2 {
        Some(ComandaStatus::Cancelada)
    } else {
        None
    }
}

/// The label shown for the API code `status`.
pub open spec fn status_label(status: i32) -> Seq<char> {
    match spec_status_from_i32(status) {
        Some(ComandaStatus::Aberta) => "Aberta"@,
        Some(ComandaStatus::Fechada) => "Fechada"@,
        Some(ComandaStatus::Cancelada) => "Cancelada"@,
        None => "Desconhecido"@,
    }
}

/// The badge classes shown for the API code `status`.
pub open spec fn status_badge_class(status: i32) -> Seq<char> {
    match spec_status_from_i32(status) {
        Some(ComandaStatus::Aberta) => "bg-emerald-100 text-emerald-700 border-emerald-200"@,
        Some(ComandaStatus::Fechada) => "bg-red-100 text-red-700 border-red-200"@,
        Some(ComandaStatus::Cancelada) => "bg-orange-100 text-orange-700 border-orange-200"@,
        None => "bg-slate-100 text-slate-700 border-slate-200"@,
    }
}

/// The choices offered in status filters: each status with its code and label, in order.
pub open spec fn spec_status_options() -> Seq<(i32, Seq<char>)> {
    seq![(0i32, "Aberta"@), (1i32, "Fechada"@), (2i32, "Cancelada"@)]
}

/// The choices offered in status filters.
pub fn status_options() -> (r: Vec<StatusOption>)
    ensures
        r.len() == spec_status_options().len(),
        forall|i: int|
            0 <= i < r.len() ==> (#[trigger] r@[i]).value == spec_status_options()[i].0
                && r@[i].label@ == spec_status_options()[i].1,
{
    let mut r: Vec<StatusOption> = Vec::new();
    r.push(StatusOption { value: ComandaStatus::Aberta.as_i32(), label: "Aberta" });
    r.push(StatusOption { value: ComandaStatus::Fechada.as_i32(), label: "Fechada" });
    r.push(StatusOption { value: ComandaStatus::Cancelada.as_i32(), label: "Cancelada" });
    r
}

/// The status with the API code `status`, if any.
pub fn status_from_i32(status: i32) -> (r: Option<ComandaStatus>)
    ensures
        r == spec_status_from_i32(status),
{
    match status {
        0 => Some(ComandaStatus::Aberta),
        1 => Some(ComandaStatus::Fechada),
        2 => Some(ComandaStatus::Cancelada),
        _ => None,
    }
}

/// How the API code `status` is shown; unknown codes show as "Desconhecido".
pub fn status_config(status: i32) -> (r: StatusConfig)
    ensures
        r.label@ == status_label(status),
        r.badge_class@ == status_badge_class(status),
{
    match status_from_i32(status) {
        Some(ComandaStatus::Aberta) => StatusConfig {
            label: "Aberta",
            badge_class: "bg-emerald-100 text-emerald-700 border-emerald-200",
        },
        Some(ComandaStatus::Fechada) => StatusConfig {
            label: "Fechada",
            badge_class: "bg-red-100 text-red-700 border-red-200",
        },
        Some(ComandaStatus::Cancelada) => StatusConfig {
            label: "Cancelada",
            badge_class: "bg-orange-100 text-orange-700 border-orange-200",
        },
        None => StatusConfig {
            label: "Desconhecido",
            badge_class: "bg-slate-100 text-slate-700 border-slate-200",
        },
    }
}

/// A status read back from its API code is the same status.
pub proof fn law_status_code_round_trip(s: ComandaStatus)
    ensures
        spec_status_from_i32(status_code(s)) == Some(s),
{
}

/// Only the codes of the three statuses name a status.
pub proof fn law_status_codes(code: i32)
    ensures
        spec_status_from_i32(code) matches Some(s) ==> status_code(s) == code,
        spec_status_from_i32(code) is None <==> !(0 <= code <= 2),
{
}

/// Every filter choice names a known status, and shows the label that the status
/// badge shows.
pub proof fn law_status_options_agree_with_config(i: int)
    requires
        0 <= i < spec_status_options().len(),
    ensures
        spec_status_from_i32(spec_status_options()[i].0) is Some,
        status_label(spec_status_options()[i].0) == spec_status_options()[i].1,
{
}

} // verus!
