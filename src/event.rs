use vstd::prelude::*;

verus! {

/// The spikes that a layer emits at one timestep, one 0 or 1 per neuron.
#[derive(Debug)]
pub struct Evento {
    /// The timestep.
    pub ts: u64,
    /// One spike per neuron of the emitting layer.
    pub spikes: Vec<u8>,
}

impl Evento {
    pub fn new(ts: u64, spikes: Vec<u8>) -> (r: Evento)
        ensures
            r.ts == ts,
            r.spikes@ == spikes@,
    {
        Evento { ts, spikes }
    }
}

/// Whether every entry is a spike value, 0 or 1.
pub open spec fn binary(spikes: Seq<u8>) -> bool {
    forall|i: int| 0 <= i < spikes.len() ==> #[trigger] spikes[i] <= 1
}

} // verus!
