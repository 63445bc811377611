//! The decision logic of the process guard: which termination facilities to
//! try and in what order, when a purge counts as successful, how a failed
//! period-setter start is classified, and how live instances are counted in
//! a process listing.
//!
//! The guard's contract is that at most one period-setter instance is alive
//! during a measurement burst and none outside one; the operating-system
//! calls themselves are issued by the surrounding program.

use vstd::prelude::*;
use crate::error::BenchError;
use crate::parsing::{contains_sub, contains_sub_exec, count_sub, spec_count};

verus! {

/// The termination facilities, in the order they are tried.
#[derive(Clone, Copy, Debug, PartialEq, Eq, Structural)]
pub enum PurgeMethod {
    PowerShell,
    Taskkill,
    Wmic,
}

/// The order in which a full purge tries the termination facilities.
pub fn purge_sequence() -> (r: Vec<PurgeMethod>)
    ensures
        r@ == seq![PurgeMethod::PowerShell, PurgeMethod::Taskkill, PurgeMethod::Wmic],
{
    let mut v: Vec<PurgeMethod> = Vec::new();
    v.push(PurgeMethod::PowerShell);
    v.push(PurgeMethod::Taskkill);
    v.push(PurgeMethod::Wmic);
    proof {
        assert(v@ =~= seq![PurgeMethod::PowerShell, PurgeMethod::Taskkill, PurgeMethod::Wmic]);
    }
    v
}

/// A purge succeeds exactly when the independent count afterwards is zero;
/// otherwise the run stops with a stuck-process error carrying the count.
pub fn purge_concluded(remaining: usize) -> (r: Result<(), BenchError>)
    ensures
        r is Ok <==> remaining == 0,
        remaining != 0 ==> r == Err::<(), BenchError>(BenchError::StuckProcess(remaining)),
{
    if remaining == 0 {
        Ok(())
    } else {
        Err(BenchError::StuckProcess(remaining))
    }
}

/// The bytes of `"already running"`.
pub open spec fn already_running_pat() -> Seq<u8> {
    seq![
        97u8, 108u8, 114u8, 101u8, 97u8, 100u8, 121u8, 32u8, 114u8, 117u8, 110u8, 110u8, 105u8,
        110u8, 103u8,
    ]
}

/// The bytes of `"Another instance"`.
pub open spec fn another_instance_pat() -> Seq<u8> {
    seq![
        65u8, 110u8, 111u8, 116u8, 104u8, 101u8, 114u8, 32u8, 105u8, 110u8, 115u8, 116u8, 97u8,
        110u8, 99u8, 101u8,
    ]
}

/// The bytes of `"SetTimerResolution.exe"`, the period-setter's image name.
pub open spec fn image_name_pat() -> Seq<u8> {
    seq![
        83u8, 101u8, 116u8, 84u8, 105u8, 109u8, 101u8, 114u8, 82u8, 101u8, 115u8, 111u8, 108u8,
        117u8, 116u8, 105u8, 111u8, 110u8, 46u8, 101u8, 120u8, 101u8,
    ]
}

/// Whether captured period-setter output signals a single-instance lock
/// conflict.
pub open spec fn spec_is_instance_conflict(output: Seq<u8>) -> bool {
    contains_sub(output, already_running_pat()) || contains_sub(output, another_instance_pat())
}

/// Classify the captured output of a period-setter that exited right after
/// starting: a single-instance lock conflict, or a plain spawn failure
/// carrying the captured text.
pub fn classify_spawn_exit(output: &[u8]) -> (r: BenchError)
    ensures
        spec_is_instance_conflict(output@) ==> r is InstanceConflict,
        !spec_is_instance_conflict(output@) ==> (r matches BenchError::SpawnFailed(o) && o@
            == output@),
{
    let ar: [u8; 15] = [
        97u8, 108u8, 114u8, 101u8, 97u8, 100u8, 121u8, 32u8, 114u8, 117u8, 110u8, 110u8, 105u8,
        110u8, 103u8,
    ];
    let ai: [u8; 16] = [
        65u8, 110u8, 111u8, 116u8, 104u8, 101u8, 114u8, 32u8, 105u8, 110u8, 115u8, 116u8, 97u8,
        110u8, 99u8, 101u8,
    ];
    proof {
        assert(ar@ =~= already_running_pat());
        assert(ai@ =~= another_instance_pat());
    }
    if contains_sub_exec(output, ar.as_slice()) || contains_sub_exec(output, ai.as_slice()) {
        BenchError::InstanceConflict
    } else {
        let mut copy: Vec<u8> = Vec::new();
        let mut i: usize = 0;
        while i < output.len()
            invariant
                0 <= i <= output@.len(),
                copy@ == output@.take(i as int),
            decreases output@.len() - i,
        {
            copy.push(output[i]);
            proof {
                assert(output@.take(i as int + 1) =~= output@.take(i as int).push(
                    output@[i as int],
                ));
            }
            i = i + 1;
        }
        proof {
            assert(output@.take(output@.len() as int) =~= output@);
        }
        BenchError::SpawnFailed(copy)
    }
}

/// Count the period-setter instances named in a process listing, by image
/// name, scanning left to right without overlap.
pub fn count_image_mentions(listing: &[u8]) -> (r: usize)
    ensures
        r as int == spec_count(listing@, image_name_pat(), 0),
{
    let pat: [u8; 22] = [
        83u8, 101u8, 116u8, 84u8, 105u8, 109u8, 101u8, 114u8, 82u8, 101u8, 115u8, 111u8, 108u8,
        117u8, 116u8, 105u8, 111u8, 110u8, 46u8, 101u8, 120u8, 101u8,
    ];
    proof {
        assert(pat@ =~= image_name_pat());
    }
    count_sub(listing, pat.as_slice())
}

} // verus!
