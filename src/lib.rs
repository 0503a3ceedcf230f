use vstd::prelude::*;

pub mod db;
pub mod routes;
pub mod session;

verus! {

} // verus!
