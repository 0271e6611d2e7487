use vstd::prelude::*;

verus! {

#[verifier::external_type_specification]
#[verifier::external_body]
#[verifier::reject_recursive_types(T)]
pub struct ExSender<T>(crossbeam_channel::Sender<T>);

/// Relies on `crossbeam_channel::Sender::send`: it fails only when the
/// channel is disconnected, and then returns the unsent message inside the
/// error; on an unbounded channel it never blocks.
#[verifier::external_body]
pub(crate) fn queue_send(
    tx: &crossbeam_channel::Sender<(u64, Vec<u8>)>,
    session_id: u64,
    payload: Vec<u8>,
) -> (r: Result<(), (u64, Vec<u8>)>)
    ensures
        (r matches Err(m) ==> m == (session_id, payload)),
{
    match tx.send((session_id, payload)) {
        Ok(()) => Ok(()),
        Err(crossbeam_channel::SendError(m)) => Err(m),
    }
}

} // verus!
