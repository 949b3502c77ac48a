use vstd::prelude::*;

verus! {

pub const LOGIN: &'static str = "/auth/login";

pub const REFRESH: &'static str = "/auth/refresh";

pub const ME: &'static str = "/auth/me";

pub const LOGOUT: &'static str = "/auth/logout";

} // verus!
