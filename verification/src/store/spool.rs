//! Per-instance inbox spools: who may be written to, and the polling
//! schedule of a consumer awaiting messages.

use vstd::prelude::*;
use crate::registry::instance_id_ok;
use crate::store::error::StoreError;
use crate::store::instances::valid_instance_id;

verus! {

/// The first poll interval of `await_message`, in nanoseconds.
pub const AWAIT_FIRST_DELAY_NS: u128 = 50_000_000;

/// The longest poll interval of `await_message`, in nanoseconds.
pub const AWAIT_MAX_DELAY_NS: u128 = 250_000_000;

/// A spool is written only for a valid instance id.
pub fn check_spool_id(id: &str) -> (r: Result<(), StoreError>)
    ensures
        r is Ok <==> instance_id_ok(id@),
        r matches Err(e) ==> e is InvalidInstanceId,
{
    if valid_instance_id(id) {
        Ok(())
    } else {
        Err(StoreError::InvalidInstanceId)
    }
}

/// What an awaiting consumer does next.
#[derive(Debug, Clone, Copy, PartialEq, Eq, Structural)]
pub enum AwaitStep {
    /// The spool holds data: consume it.
    Consume,
    /// The deadline has passed: return an empty batch.
    GiveUp,
    /// Sleep, then poll again with the next delay.
    Sleep { sleep_ns: u128, next_delay_ns: u128 },
}

/// The poll interval after `delay`: doubled, at most 250 ms.
pub open spec fn next_delay(delay: u128) -> u128 {
    if 2 * delay < AWAIT_MAX_DELAY_NS { (2 * delay) as u128 } else { AWAIT_MAX_DELAY_NS }
}

/// One step of `await_message`, given the spool's size, the time left
/// before the deadline (0 once it has passed) and the current delay.
pub fn await_step(spool_len: u64, remaining_ns: u128, delay_ns: u128) -> (step: AwaitStep)
    ensures
        0 < spool_len ==> step == AwaitStep::Consume,
        spool_len == 0 && remaining_ns == 0 ==> step == AwaitStep::GiveUp,
        spool_len == 0 && remaining_ns > 0 ==> step == (AwaitStep::Sleep {
            sleep_ns: if delay_ns < remaining_ns { delay_ns } else { remaining_ns },
            next_delay_ns: next_delay(delay_ns),
        }),
{
    if 0 < spool_len {
        return AwaitStep::Consume;
    }
    if remaining_ns == 0 {
        return AwaitStep::GiveUp;
    }
    let sleep_ns = if delay_ns < remaining_ns { delay_ns } else { remaining_ns };
    let next = if delay_ns < AWAIT_MAX_DELAY_NS / 2 { delay_ns * 2 } else { AWAIT_MAX_DELAY_NS };
    AwaitStep::Sleep { sleep_ns, next_delay_ns: next }
}

/// The wait never sleeps past the deadline, and the delay stays within
/// 250 ms once it starts there.
pub proof fn lemma_await_bounded(spool_len: u64, remaining_ns: u128, delay_ns: u128)
    requires
        delay_ns <= AWAIT_MAX_DELAY_NS,
    ensures
        spool_len == 0 && remaining_ns > 0 ==> next_delay(delay_ns) <= AWAIT_MAX_DELAY_NS,
        spool_len == 0 && remaining_ns > 0 ==> (if delay_ns < remaining_ns { delay_ns } else { remaining_ns }) <= remaining_ns,
{
}

} // verus!
