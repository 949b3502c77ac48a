use vstd::prelude::*;

verus! {

pub const LIST: &'static str = "/auditoria";

pub const ACOES: &'static str = "/auditoria/acoes";

} // verus!
