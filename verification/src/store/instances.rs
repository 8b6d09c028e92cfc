//! Instance registration: a row per id, either persistent or owned by a
//! pid. A live foreign pid keeps its id; dead owners and persistent rows
//! yield to the caller.

use vstd::prelude::*;
use crate::registry::{instance_id_ok, is_valid_id};
use crate::store::error::StoreError;
use crate::text::owned;

verus! {

/// Options of a registration.
#[derive(Debug)]
pub struct RegisterOpts {
    pub persistent: bool,
    pub on_delivery: Option<String>,
    /// Owner pid of a non-persistent row; the calling process by default.
    pub pid: Option<i32>,
}

/// One row of the instance table, with its liveness.
#[derive(Debug)]
pub struct InstanceRow {
    pub id: String,
    pub pid: Option<i32>,
    pub persistent: bool,
    pub on_delivery: Option<String>,
    pub registered_at: String,
    pub alive: bool,
}

/// The row already registered under an id, as far as a registration needs
/// it.
#[derive(Debug, Clone, Copy, PartialEq, Eq, Structural)]
pub struct ExistingRow {
    pub pid: Option<i32>,
    pub persistent: bool,
}

impl Default for RegisterOpts {
    fn default() -> (o: RegisterOpts)
        ensures
            !o.persistent && o.on_delivery is None && o.pid is None,
    {
        RegisterOpts { persistent: false, on_delivery: None, pid: None }
    }
}

/// Whether `id` is a valid instance id (`[A-Za-z0-9_.:-]{1,128}`).
pub fn valid_instance_id(id: &str) -> (r: bool)
    ensures
        r == instance_id_ok(id@),
{
    is_valid_id(id)
}

/// The first check of a registration: the id must be valid.
pub fn check_instance_id(id: &str) -> (r: Result<(), StoreError>)
    ensures
        r is Ok <==> instance_id_ok(id@),
        r matches Err(e) ==> e is InvalidInstanceId,
{
    if valid_instance_id(id) {
        Ok(())
    } else {
        Err(StoreError::InvalidInstanceId)
    }
}

/// The pid a registration records: none for a persistent row, else the
/// given pid or the caller's own.
pub fn registration_pid(opts: &RegisterOpts, own_pid: i32) -> (pid: Option<i32>)
    ensures
        opts.persistent ==> pid is None,
        !opts.persistent ==> pid == Some(match opts.pid {
            Some(p) => p,
            None => own_pid,
        }),
{
    if opts.persistent {
        None
    } else {
        match opts.pid {
            Some(p) => Some(p),
            None => Some(own_pid),
        }
    }
}

/// Whether a registration for `pid` must yield to the row already there:
/// only a non-persistent row owned by a different, live pid holds its id.
pub open spec fn id_held_by_other(existing: Option<ExistingRow>, old_alive: bool, pid: Option<i32>) -> bool {
    match existing {
        Some(row) => match row.pid {
            Some(old) => !row.persistent && old_alive && pid != Some(old),
            None => false,
        },
        None => false,
    }
}

/// Decides a registration of `id` for `pid` against the row already
/// registered under it (`old_alive`: whether that row's pid is alive).
pub fn registration_verdict(id: &str, existing: Option<ExistingRow>, old_alive: bool, pid: Option<i32>) -> (r: Result<(), StoreError>)
    ensures
        r is Ok <==> !id_held_by_other(existing, old_alive, pid),
        r matches Err(e) ==> (e matches StoreError::InstanceIdTaken(s) && s@ == id@),
{
    match existing {
        Some(row) => match row.pid {
            Some(old) => {
                if !row.persistent && old_alive && pid != Some(old) {
                    Err(StoreError::InstanceIdTaken(owned(id)))
                } else {
                    Ok(())
                }
            },
            None => Ok(()),
        },
        None => Ok(()),
    }
}

/// A listed row is alive when persistent, or when its pid is alive.
pub fn row_alive(persistent: bool, pid_alive: Option<bool>) -> (alive: bool)
    ensures
        alive == (persistent || pid_alive == Some(true)),
{
    persistent || match pid_alive {
        Some(a) => a,
        None => false,
    }
}

} // verus!
