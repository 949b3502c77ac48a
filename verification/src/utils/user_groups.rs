//! User groups (roles) and the access checks built on them.
use vstd::prelude::*;
use crate::json::{group_of, json_get, spec_group_of, JsonValue};
use crate::number::spec_i32_from_str;

verus! {

pub const ADMINISTRADOR: i32 = 1;

pub const ATENDENTE: i32 = 2;

pub const CAIXA: i32 = 3;

/// How a group is shown: its label and the classes of its badge.
#[derive(Clone, Copy, Debug)]
pub struct GroupInfo {
    pub label: &'static str,
    pub color_class: &'static str,
}

pub open spec fn group_label(group: Option<i32>) -> Seq<char> {
    match group {
        Some(1i32) => "Administrador"@,
        Some(2i32) => "Atendente"@,
        Some(3i32) => "Caixa"@,
        _ => "Nao definido"@,
    }
}

pub open spec fn group_color_class(group: Option<i32>) -> Seq<char> {
    match group {
        Some(1i32) => "bg-red-100 text-red-700"@,
        Some(2i32) => "bg-sky-100 text-sky-700"@,
        Some(3i32) => "bg-emerald-100 text-emerald-700"@,
        _ => "bg-slate-100 text-slate-700"@,
    }
}

/// How `group` is shown; no group or an unknown one shows as "Nao definido".
pub fn get_group_info(group: Option<i32>) -> (r: GroupInfo)
    ensures
        r.label@ == group_label(group),
        r.color_class@ == group_color_class(group),
{
    match group {
        Some(ADMINISTRADOR) => GroupInfo {
            label: "Administrador",
            color_class: "bg-red-100 text-red-700",
        },
        Some(ATENDENTE) => GroupInfo { label: "Atendente", color_class: "bg-sky-100 text-sky-700" },
        Some(CAIXA) => GroupInfo { label: "Caixa", color_class: "bg-emerald-100 text-emerald-700" },
        _ => GroupInfo { label: "Nao definido", color_class: "bg-slate-100 text-slate-700" },
    }
}

/// The group of a user record: its first field among `grupo`, `group` and `role`,
/// read as an integer (see `spec_group_of`).
pub open spec fn spec_read_group(user: JsonValue) -> Option<i32> {
    match json_get(user, "grupo"@) {
        Some(f) => spec_group_of(f),
        None => match json_get(user, "group"@) {
            Some(f) => spec_group_of(f),
            None => match json_get(user, "role"@) {
                Some(f) => spec_group_of(f),
                None => None,
            },
        },
    }
}

/// The group of a user record (see `spec_read_group`).
pub fn read_group(user: &JsonValue) -> (r: Option<i32>)
    ensures
        r == spec_read_group(*user),
{
    match user.get("grupo") {
        Some(f) => group_of(f),
        None => match user.get("group") {
            Some(f) => group_of(f),
            None => match user.get("role") {
                Some(f) => group_of(f),
                None => None,
            },
        },
    }
}

/// The user may pass: no group is required, or the user's group is one of `allowed`.
pub open spec fn spec_has_group(user: Option<JsonValue>, allowed: Seq<i32>) -> bool {
    if allowed.len() == 0 {
        true
    } else {
        match user {
            Some(u) => match spec_read_group(u) {
                Some(g) => allowed.contains(g),
                None => false,
            },
            None => false,
        }
    }
}

pub open spec fn opt_user(user: Option<&JsonValue>) -> Option<JsonValue> {
    match user {
        Some(u) => Some(*u),
        None => None,
    }
}

/// Whether the user belongs to one of `allowed` (everyone does when it is empty).
pub fn has_group(user: Option<&JsonValue>, allowed_groups: &[i32]) -> (r: bool)
    ensures
        r == spec_has_group(opt_user(user), allowed_groups@),
{
    if allowed_groups.len() == 0 {
        return true;
    }
    let group = match user {
        Some(u) => read_group(u),
        None => None,
    };
    match group {
        Some(g) => {
            let mut i: usize = 0;
            while i < allowed_groups.len()
                invariant
                    i <= allowed_groups.len(),
                    allowed_groups.len() > 0,
                    match opt_user(user) {
                        Some(u) => spec_read_group(u) == Some(g),
                        None => false,
                    },
                    forall|k: int| 0 <= k < i ==> allowed_groups@[k] != g,
                decreases allowed_groups.len() - i,
            {
                if allowed_groups[i] == g {
                    assert(allowed_groups@[i as int] == g);
                    assert(allowed_groups@.contains(g));
                    return true;
                }
                i = i + 1;
            }
            false
        },
        None => false,
    }
}

/// Whether the user is an administrator.
pub fn is_admin(user: Option<&JsonValue>) -> (r: bool)
    ensures
        r == spec_has_group(opt_user(user), seq![ADMINISTRADOR]),
{
    let allowed = [ADMINISTRADOR];
    let r = has_group(user, &allowed);
    assert(allowed@ =~= seq![ADMINISTRADOR]);
    r
}

/// Whether the user is an administrator or a cashier.
pub fn is_admin_or_caixa(user: Option<&JsonValue>) -> (r: bool)
    ensures
        r == spec_has_group(opt_user(user), seq![ADMINISTRADOR, CAIXA]),
{
    let allowed = [ADMINISTRADOR, CAIXA];
    let r = has_group(user, &allowed);
    assert(allowed@ =~= seq![ADMINISTRADOR, CAIXA]);
    r
}

/// When no group is required, everyone passes, signed in or not.
pub proof fn law_no_groups_required(user: Option<JsonValue>)
    ensures
        spec_has_group(user, Seq::empty()),
{
}

/// Without a user record nobody passes a group check.
pub proof fn law_no_user_no_group(allowed: Seq<i32>)
    requires
        allowed.len() > 0,
    ensures
        !spec_has_group(None, allowed),
{
}

/// An administrator passes every check that admits administrators and cashiers.
pub proof fn law_admin_is_admin_or_caixa(user: Option<JsonValue>)
    ensures
        spec_has_group(user, seq![ADMINISTRADOR]) ==> spec_has_group(user, seq![ADMINISTRADOR, CAIXA]),
{
    if spec_has_group(user, seq![ADMINISTRADOR]) {
        let u = user->0;
        assert(seq![ADMINISTRADOR].contains(spec_read_group(u)->0));
        assert(seq![ADMINISTRADOR, CAIXA][0] == ADMINISTRADOR);
    }
}

/// Widening the allowed groups never locks a user out.
pub proof fn law_has_group_monotone(user: Option<JsonValue>, allowed: Seq<i32>, more: Seq<i32>)
    requires
        allowed.len() > 0,
    ensures
        spec_has_group(user, allowed) ==> spec_has_group(user, allowed + more),
{
    if spec_has_group(user, allowed) {
        let g = spec_read_group(user->0)->0;
        let k = choose|k: int| 0 <= k < allowed.len() && allowed[k] == g;
        assert((allowed + more)[k] == g);
    }
}

/// A user's group comes from the first of the fields `grupo`, `group` and `role`
/// that the record has (even when it cannot be read); an integer within `i32` is
/// the group, and so is a text that parses as an `i32`.
pub proof fn law_read_group_fields(u: JsonValue)
    ensures
        json_get(u, "grupo"@) matches Some(f) ==> spec_read_group(u) == spec_group_of(f),
        json_get(u, "grupo"@) is None ==> (json_get(u, "group"@) matches Some(f) ==> spec_read_group(u)
            == spec_group_of(f)),
        json_get(u, "grupo"@) is None && json_get(u, "group"@) is None ==> (json_get(u, "role"@) matches Some(f)
            ==> spec_read_group(u) == spec_group_of(f)),
        json_get(u, "grupo"@) is None && json_get(u, "group"@) is None && json_get(u, "role"@) is None
            ==> spec_read_group(u) is None,
{
}

/// A group field that is an integer within `i32` is that group; a text is the
/// group it parses to, and none when it does not parse.
pub proof fn law_group_of(f: JsonValue)
    ensures
        f matches JsonValue::PosInt(n) ==> (n <= i32::MAX ==> spec_group_of(f) == Some(n as i32)),
        f matches JsonValue::NegInt(n) ==> (n >= i32::MIN ==> spec_group_of(f) == Some(n as i32)),
        f matches JsonValue::Str(t) ==> (spec_i32_from_str(t@) is Ok ==> spec_group_of(f) == Some(
            spec_i32_from_str(t@)->Ok_0 as i32,
        )),
        f matches JsonValue::Str(t) ==> (spec_i32_from_str(t@) is Err ==> spec_group_of(f) is None),
        f == JsonValue::Null ==> spec_group_of(f) is None,
{
}

} // verus!
