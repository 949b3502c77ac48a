//! Who may see a private page.
use vstd::prelude::*;
use crate::json::JsonValue;
use crate::utils::user_groups::{has_group, opt_user, spec_has_group};

verus! {

/// What a private page does for the current session.
#[derive(Clone, Copy, Debug, PartialEq, Eq, Structural)]
pub enum RouteAccess {
    /// The session is still loading: show nothing yet.
    Waiting,
    /// Not signed in: go to the login page.
    RedirectToLogin,
    /// Signed in but not in an allowed group: warn and go to the home page.
    Denied,
    /// Show the page.
    Granted,
}

pub open spec fn opt_groups(g: Option<&[i32]>) -> Option<Seq<i32>> {
    match g {
        Some(s) => Some(s@),
        None => None,
    }
}

/// The decision of a private page: wait while loading; send signed-out users to the
/// login page; deny users outside the page's groups (when it has any); grant otherwise.
pub open spec fn spec_route_access(
    loading: bool,
    is_authenticated: bool,
    allowed_groups: Option<Seq<i32>>,
    user: Option<JsonValue>,
) -> RouteAccess {
    if loading {
        RouteAccess::Waiting
    } else if !is_authenticated {
        RouteAccess::RedirectToLogin
    } else {
        match allowed_groups {
            Some(groups) => if spec_has_group(user, groups) {
                RouteAccess::Granted
            } else {
                RouteAccess::Denied
            },
            None => RouteAccess::Granted,
        }
    }
}

/// The decision of a private page (see `spec_route_access`).
pub fn route_access(
    loading: bool,
    is_authenticated: bool,
    allowed_groups: Option<&[i32]>,
    user: Option<&JsonValue>,
) -> (r: RouteAccess)
    ensures
        r == spec_route_access(loading, is_authenticated, opt_groups(allowed_groups), opt_user(user)),
{
    if loading {
        return RouteAccess::Waiting;
    }
    if !is_authenticated {
        return RouteAccess::RedirectToLogin;
    }
    match allowed_groups {
        Some(groups) => if has_group(user, groups) {
            RouteAccess::Granted
        } else {
            RouteAccess::Denied
        },
        None => RouteAccess::Granted,
    }
}

/// Whether a private page shows its content.
pub fn is_authorized(
    loading: bool,
    is_authenticated: bool,
    allowed_groups: Option<&[i32]>,
    user: Option<&JsonValue>,
) -> (r: bool)
    ensures
        r == (spec_route_access(loading, is_authenticated, opt_groups(allowed_groups), opt_user(user))
            == RouteAccess::Granted),
{
    route_access(loading, is_authenticated, allowed_groups, user) == RouteAccess::Granted
}

/// A private page shows its content only to a signed-in user whose session has
/// loaded and who is in one of the page's groups (when it names any).
pub proof fn law_granted_only_when_signed_in(
    loading: bool,
    is_authenticated: bool,
    allowed_groups: Option<Seq<i32>>,
    user: Option<JsonValue>,
)
    ensures
        spec_route_access(loading, is_authenticated, allowed_groups, user) == RouteAccess::Granted
            ==> !loading && is_authenticated && (allowed_groups matches Some(g) ==> spec_has_group(
            user,
            g,
        )),
{
}

/// A page without groups is shown to every signed-in user once the session has loaded.
pub proof fn law_no_groups_grants_signed_in(user: Option<JsonValue>)
    ensures
        spec_route_access(false, true, None, user) == RouteAccess::Granted,
        spec_route_access(false, true, Some(Seq::empty()), user) == RouteAccess::Granted,
{
}

} // verus!
